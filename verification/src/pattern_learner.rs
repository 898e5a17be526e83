//! The pattern learner: sequences of actions seen at least three times
//! become workflow patterns, named and tagged, keyed by the hash of their
//! signatures. Times are seconds since the epoch. A pattern's confidence and
//! average duration are derived from what it keeps (its occurrences and the
//! durations of its past occurrences).
use vstd::prelude::*;
use crate::patterns::{
    copy_signatures, extract_tags, generate_pattern_name, spec_confirmed, spec_max_counted, spec_pattern_name,
    spec_seq_view, spec_suffix, spec_tags, spec_window_durations, ActionKind, ActionSignature, SeqKey,
    SequenceTracker, UserAction, MIN_PATTERN_LENGTH,
};
use crate::text::{hex_string, join2, spec_hex, spec_strings, str_eq};

verus! {

/// What `DefaultHasher::new()` gives for a sequence of signatures, hashed
/// as a slice (its length, then each signature's fields).
pub uninterp spec fn spec_sequence_hash(seq: Seq<(Seq<char>, ActionKind, Option<Seq<char>>)>) -> u64;

/// Trusted: hashes the signatures with `std::collections::hash_map::DefaultHasher`,
/// whose keys are fixed, so that equal signatures give equal hashes.
#[verifier::external_body]
pub(crate) fn sequence_hash(seq: &[ActionSignature]) -> (h: u64)
    ensures
        h == spec_sequence_hash(spec_seq_view(seq@)),
{
    let mut hasher = std::collections::hash_map::DefaultHasher::new();
    std::hash::Hash::hash(seq, &mut hasher);
    std::hash::Hasher::finish(&hasher)
}

/// The id of the pattern of a sequence: "pattern_" and the hash in hexadecimal.
pub open spec fn spec_pattern_id(key: SeqKey) -> Seq<char> {
    "pattern_"@ + spec_hex(spec_sequence_hash(key) as nat)
}

/// The id of the pattern of a sequence (see `spec_pattern_id`).
pub fn generate_pattern_id(sequence: &[ActionSignature]) -> (id: String)
    ensures
        id@ == spec_pattern_id(spec_seq_view(sequence@)),
{
    let h = hex_string(sequence_hash(sequence));
    join2("pattern_", h.as_str())
}

/// A learnt workflow pattern.
#[derive(Debug, Clone)]
pub struct WorkflowPattern {
    pub id: String,
    pub name: String,
    pub sequence: Vec<ActionSignature>,
    pub occurrences: usize,
    pub last_seen: i64,
    pub created_at: i64,
    /// Durations (seconds) of the sequence's occurrences in the history when
    /// the pattern was found, oldest first.
    pub durations_secs: Vec<i128>,
    pub tags: Vec<String>,
}

/// What the learner keeps track of in a pattern.
pub struct PatternCore {
    pub id: Seq<char>,
    pub key: SeqKey,
    pub occurrences: nat,
    pub last_seen: i64,
    pub created_at: i64,
    pub durations: Seq<int>,
}

/// The whole of a pattern's values.
pub struct PatternFull {
    pub core: PatternCore,
    pub name: Seq<char>,
    pub tags: Seq<Seq<char>>,
}

pub open spec fn spec_core(p: WorkflowPattern) -> PatternCore {
    PatternCore {
        id: p.id@,
        key: spec_seq_view(p.sequence@),
        occurrences: p.occurrences as nat,
        last_seen: p.last_seen,
        created_at: p.created_at,
        durations: p.durations_secs@.map_values(|d: i128| d as int),
    }
}

pub open spec fn spec_full(p: WorkflowPattern) -> PatternFull {
    PatternFull { core: spec_core(p), name: p.name@, tags: spec_strings(p.tags@) }
}

pub open spec fn spec_cores(ps: Seq<WorkflowPattern>) -> Seq<PatternCore> {
    ps.map_values(|p: WorkflowPattern| spec_core(p))
}

pub open spec fn spec_fulls(ps: Seq<WorkflowPattern>) -> Seq<PatternFull> {
    ps.map_values(|p: WorkflowPattern| spec_full(p))
}

/// A pattern's name, tags and id are those of its sequence.
pub open spec fn spec_pattern_wf(p: WorkflowPattern) -> bool {
    &&& p.name@ == spec_pattern_name(p.sequence@)
    &&& spec_strings(p.tags@) == spec_tags(p.sequence@)
    &&& p.id@ == spec_pattern_id(spec_seq_view(p.sequence@))
}

/// Some pattern has the id.
pub open spec fn spec_has_id(cs: Seq<PatternCore>, id: Seq<char>) -> bool {
    exists|i: int| 0 <= i < cs.len() && #[trigger] cs[i].id == id
}

/// Where the id is, when some pattern has it.
pub open spec fn spec_id_index(cs: Seq<PatternCore>, id: Seq<char>) -> int {
    choose|i: int| 0 <= i < cs.len() && #[trigger] cs[i].id == id
}

/// No id occurs twice.
pub open spec fn spec_ids_distinct(cs: Seq<PatternCore>) -> bool {
    forall|i: int, j: int| 0 <= i < cs.len() && 0 <= j < cs.len() && i != j ==> #[trigger] cs[i].id != #[trigger] cs[j].id
}

/// The durations of a sequence's occurrences in a history.
pub open spec fn spec_key_durations(h: SeqKey, t: Seq<i64>, key: SeqKey) -> Seq<int> {
    if 0 < key.len() <= h.len() {
        spec_window_durations(h, t, key, h.len() - key.len() + 1)
    } else {
        Seq::empty()
    }
}

/// The patterns once a sequence seen `count` times is confirmed at `now`:
/// the pattern with its id takes the count and the time; otherwise a new
/// pattern joins at the end.
pub open spec fn spec_promote(cs: Seq<PatternCore>, key: SeqKey, count: nat, now: i64, h: SeqKey, t: Seq<i64>) -> Seq<PatternCore> {
    let id = spec_pattern_id(key);
    if spec_has_id(cs, id) {
        let i = spec_id_index(cs, id);
        cs.update(i, PatternCore { occurrences: count, last_seen: now, ..cs[i] })
    } else {
        cs.push(PatternCore {
            id: id,
            key: key,
            occurrences: count,
            last_seen: now,
            created_at: now,
            durations: spec_key_durations(h, t, key),
        })
    }
}

/// The patterns once each confirmed sequence is promoted, in order.
pub open spec fn spec_promote_all(cs: Seq<PatternCore>, confirmed: Seq<(SeqKey, nat)>, now: i64, h: SeqKey, t: Seq<i64>) -> Seq<PatternCore>
    decreases confirmed.len(),
{
    if confirmed.len() == 0 {
        cs
    } else {
        let p = spec_promote_all(cs, confirmed.drop_last(), now, h, t);
        spec_promote(p, confirmed.last().0, confirmed.last().1, now, h, t)
    }
}

proof fn lemma_confirmed_keys(h: SeqKey, counts: Seq<(SeqKey, nat)>, n: int)
    requires
        n <= h.len(),
    ensures
        forall|i: int| 0 <= i < spec_confirmed(h, counts, n).len() ==> {
            let k = #[trigger] spec_confirmed(h, counts, n)[i].0;
            MIN_PATTERN_LENGTH <= k.len() <= h.len()
        },
    decreases n,
{
    if n >= MIN_PATTERN_LENGTH {
        lemma_confirmed_keys(h, counts, n - 1);
        let prev = spec_confirmed(h, counts, n - 1);
        let all = spec_confirmed(h, counts, n);
        assert(spec_suffix(h, n).len() == n);
        assert forall|i: int| 0 <= i < all.len() implies {
            let k = #[trigger] all[i].0;
            MIN_PATTERN_LENGTH <= k.len() <= h.len()
        } by {
            if i < prev.len() {
                assert(all[i] == prev[i]);
            }
        }
    }
}

/// A copy of a pattern.
pub fn copy_pattern(p: &WorkflowPattern) -> (c: WorkflowPattern)
    ensures
        spec_full(c) == spec_full(*p),
{
    let mut durations: Vec<i128> = Vec::new();
    let mut i: usize = 0;
    while i < p.durations_secs.len()
        invariant
            i <= p.durations_secs@.len(),
            durations@ == p.durations_secs@.take(i as int),
        decreases p.durations_secs@.len() - i,
    {
        durations.push(p.durations_secs[i]);
        assert(p.durations_secs@.take(i + 1) =~= p.durations_secs@.take(i as int).push(p.durations_secs@[i as int]));
        i = i + 1;
    }
    assert(p.durations_secs@.take(p.durations_secs@.len() as int) =~= p.durations_secs@);
    let mut tags: Vec<String> = Vec::new();
    let mut j: usize = 0;
    while j < p.tags.len()
        invariant
            j <= p.tags@.len(),
            spec_strings(tags@) == spec_strings(p.tags@.take(j as int)),
        decreases p.tags@.len() - j,
    {
        let ghost before = tags@;
        let t = p.tags[j].clone();
        tags.push(t);
        proof {
            assert(p.tags@.take(j + 1) =~= p.tags@.take(j as int).push(p.tags@[j as int]));
            assert(spec_strings(tags@) =~= spec_strings(before).push(t@));
            assert(spec_strings(p.tags@.take(j + 1)) =~= spec_strings(p.tags@.take(j as int)).push(p.tags@[j as int]@));
        }
        j = j + 1;
    }
    assert(p.tags@.take(p.tags@.len() as int) =~= p.tags@);
    let c = WorkflowPattern {
        id: p.id.clone(),
        name: p.name.clone(),
        sequence: copy_signatures(p.sequence.as_slice()),
        occurrences: p.occurrences,
        last_seen: p.last_seen,
        created_at: p.created_at,
        durations_secs: durations,
        tags: tags,
    };
    assert(spec_core(c).durations =~= spec_core(*p).durations);
    c
}

/// Counts of the learner.
#[derive(Debug, Clone, Copy, PartialEq, Eq, Structural)]
pub struct PatternStats {
    pub total_actions_recorded: usize,
    pub total_patterns_discovered: usize,
    pub total_sequences_tracked: usize,
}

/// Learns workflow patterns from the actions of the user.
pub struct PatternLearner {
    tracker: SequenceTracker,
    discovered: Vec<WorkflowPattern>,
}

impl PatternLearner {
    pub closed spec fn history(&self) -> SeqKey {
        self.tracker.history()
    }

    pub closed spec fn timestamps(&self) -> Seq<i64> {
        self.tracker.timestamps()
    }

    pub closed spec fn counts(&self) -> Seq<(SeqKey, nat)> {
        self.tracker.counts()
    }

    /// The patterns, in order of discovery.
    pub closed spec fn patterns(&self) -> Seq<WorkflowPattern> {
        self.discovered@
    }

    pub closed spec fn wf(&self) -> bool {
        &&& self.tracker.wf()
        &&& spec_ids_distinct(spec_cores(self.discovered@))
        &&& forall|i: int| 0 <= i < self.discovered@.len() ==> spec_pattern_wf(#[trigger] self.discovered@[i])
    }

    /// Nothing learnt yet.
    pub fn new() -> (l: Self)
        ensures
            l.wf(),
            l.history().len() == 0,
            l.counts().len() == 0,
            l.patterns().len() == 0,
    {
        PatternLearner { tracker: SequenceTracker::new(), discovered: Vec::new() }
    }

    /// Promotes a confirmed sequence at `now`.
    fn promote(&mut self, sequence: Vec<ActionSignature>, occurrences: usize, now: i64)
        requires
            old(self).wf(),
            MIN_PATTERN_LENGTH <= sequence@.len() <= old(self).history().len(),
        ensures
            final(self).wf(),
            final(self).tracker == old(self).tracker,
            spec_cores(final(self).discovered@) == spec_promote(spec_cores(old(self).discovered@),
                spec_seq_view(sequence@), occurrences as nat, now, old(self).history(), old(self).timestamps()),
    {
        let id = generate_pattern_id(sequence.as_slice());
        let ghost cs = spec_cores(self.discovered@);
        let ghost key = spec_seq_view(sequence@);
        let mut i: usize = 0;
        while i < self.discovered.len()
            invariant
                self.wf(),
                self.tracker == old(self).tracker,
                self.discovered@ == old(self).discovered@,
                cs == spec_cores(self.discovered@),
                key == spec_seq_view(sequence@),
                id@ == spec_pattern_id(key),
                i <= self.discovered@.len(),
                forall|k: int| 0 <= k < i ==> (#[trigger] cs[k]).id != id@,
            decreases self.discovered@.len() - i,
        {
            if str_eq(self.discovered[i].id.as_str(), id.as_str()) {
                proof {
                    assert(cs[i as int].id == id@);
                    let j = spec_id_index(cs, id@);
                    assert(cs[j].id == id@);
                    assert(j == i as int);
                }
                let mut p = self.discovered.remove(i);
                p.occurrences = occurrences;
                p.last_seen = now;
                self.discovered.insert(i, p);
                proof {
                    let ncs = spec_cores(self.discovered@);
                    assert(self.discovered@ =~= old(self).discovered@.update(i as int, p));
                    assert(ncs =~= cs.update(i as int, PatternCore { occurrences: occurrences as nat, last_seen: now, ..cs[i as int] }));
                    assert forall|a: int, b: int| 0 <= a < ncs.len() && 0 <= b < ncs.len() && a != b implies #[trigger] ncs[a].id != #[trigger] ncs[b].id by {
                        assert(ncs[a].id == cs[a].id);
                        assert(ncs[b].id == cs[b].id);
                    }
                    assert forall|k: int| 0 <= k < self.discovered@.len() implies spec_pattern_wf(#[trigger] self.discovered@[k]) by {
                        if k != i {
                            assert(self.discovered@[k] == old(self).discovered@[k]);
                        } else {
                            assert(spec_pattern_wf(old(self).discovered@[k]));
                        }
                    }
                    assert(spec_has_id(cs, spec_pattern_id(key)));
                    assert(ncs == spec_promote(cs, key, occurrences as nat, now, old(self).history(), old(self).timestamps()));
                }
                return;
            }
            i = i + 1;
        }
        proof {
            assert(!spec_has_id(cs, id@));
        }
        let name = generate_pattern_name(sequence.as_slice());
        let tags = extract_tags(sequence.as_slice());
        let durations = self.tracker.window_durations(sequence.as_slice());
        let p = WorkflowPattern {
            id: id,
            name: name,
            sequence: sequence,
            occurrences: occurrences,
            last_seen: now,
            created_at: now,
            durations_secs: durations,
            tags: tags,
        };
        self.discovered.push(p);
        proof {
            let ncs = spec_cores(self.discovered@);
            assert(ncs =~= cs.push(spec_core(p)));
            assert(spec_core(p).durations == spec_key_durations(self.tracker.history(), self.tracker.timestamps(), key));
            assert forall|a: int, b: int| 0 <= a < ncs.len() && 0 <= b < ncs.len() && a != b implies #[trigger] ncs[a].id != #[trigger] ncs[b].id by {
                if a < cs.len() {
                    assert(ncs[a] == cs[a]);
                }
                if b < cs.len() {
                    assert(ncs[b] == cs[b]);
                }
            }
            assert forall|k: int| 0 <= k < self.discovered@.len() implies spec_pattern_wf(#[trigger] self.discovered@[k]) by {
                if k < old(self).discovered@.len() {
                    assert(self.discovered@[k] == old(self).discovered@[k]);
                }
            }
        }
    }

    /// Records an action at `now`: the sequence tracker counts the last 2 to
    /// 5 actions, and each sequence seen at least three times, shortest
    /// first, is promoted to a pattern (a known one takes the new count and
    /// time; a new one is named, tagged and timed from the history).
    pub fn record_action_at(&mut self, action: &UserAction, now: i64)
        requires
            old(self).wf(),
        ensures
            final(self).wf(),
            final(self).history() == crate::patterns::spec_push_history(old(self).history(), crate::patterns::spec_action_sig(*action)),
            final(self).timestamps() == crate::patterns::spec_push_timestamp(old(self).timestamps(), action.timestamp),
            forall|k: SeqKey| #[trigger] crate::patterns::spec_count_of(final(self).counts(), k)
                == if crate::patterns::spec_is_counted_suffix(final(self).history(), k) {
                    let c0 = crate::patterns::spec_count_of(old(self).counts(), k);
                    if c0 < usize::MAX { c0 + 1 } else { c0 }
                } else {
                    crate::patterns::spec_count_of(old(self).counts(), k)
                },
            spec_cores(final(self).patterns()) == spec_promote_all(spec_cores(old(self).patterns()),
                spec_confirmed(final(self).history(), final(self).counts(), spec_max_counted(final(self).history().len())),
                now, final(self).history(), final(self).timestamps()),
    {
        let confirmed = self.tracker.record_action(action);
        let ghost tr = self.tracker;
        let ghost conf = spec_confirmed(self.history(), self.counts(), spec_max_counted(self.history().len()));
        let ghost cs0 = spec_cores(self.discovered@);
        let ghost h = self.history();
        let ghost t = self.timestamps();
        proof {
            lemma_confirmed_keys(h, self.counts(), spec_max_counted(h.len()));
        }
        let mut rest = confirmed;
        let total = rest.len();
        let mut i: usize = 0;
        while rest.len() > 0
            invariant
                self.wf(),
                self.tracker == tr,
                h == self.history(),
                t == self.timestamps(),
                conf == spec_confirmed(self.history(), self.counts(), spec_max_counted(self.history().len())),
                conf.len() == total,
                i + rest@.len() == total,
                forall|k: int| 0 <= k < rest@.len() ==> (spec_seq_view((#[trigger] rest@[k]).0@), rest@[k].1 as nat) == conf[i + k],
                forall|k: int| 0 <= k < conf.len() ==> MIN_PATTERN_LENGTH <= (#[trigger] conf[k]).0.len() <= h.len(),
                spec_cores(self.discovered@) == spec_promote_all(cs0, conf.take(i as int), now, h, t),
            decreases rest@.len(),
        {
            let ghost old_rest = rest@;
            let (seq, count) = rest.remove(0);
            proof {
                assert((spec_seq_view(seq@), count as nat) == conf[i as int]);
                assert forall|k: int| 0 <= k < rest@.len() implies (spec_seq_view((#[trigger] rest@[k]).0@), rest@[k].1 as nat) == conf[i + 1 + k] by {
                    assert(rest@[k] == old_rest[k + 1]);
                }
                assert(conf.take(i + 1).drop_last() =~= conf.take(i as int));
                assert(conf.take(i + 1).last() == conf[i as int]);
                assert(spec_seq_view(seq@).len() == seq@.len());
            }
            self.promote(seq, count, now);
            i = i + 1;
        }
        proof {
            assert(conf.take(total as int) =~= conf);
        }
    }

    /// Records an action at the present time.
    pub fn record_action(&mut self, action: &UserAction)
        requires
            old(self).wf(),
        ensures
            final(self).wf(),
            final(self).history() == crate::patterns::spec_push_history(old(self).history(), crate::patterns::spec_action_sig(*action)),
            final(self).timestamps() == crate::patterns::spec_push_timestamp(old(self).timestamps(), action.timestamp),
            forall|k: SeqKey| #[trigger] crate::patterns::spec_count_of(final(self).counts(), k)
                == if crate::patterns::spec_is_counted_suffix(final(self).history(), k) {
                    let c0 = crate::patterns::spec_count_of(old(self).counts(), k);
                    if c0 < usize::MAX { c0 + 1 } else { c0 }
                } else {
                    crate::patterns::spec_count_of(old(self).counts(), k)
                },
            exists|now: i64| spec_cores(final(self).patterns()) == spec_promote_all(spec_cores(old(self).patterns()),
                spec_confirmed(final(self).history(), final(self).counts(), spec_max_counted(final(self).history().len())),
                now, final(self).history(), final(self).timestamps()),
    {
        let secs = crate::clock::unix_time_secs();
        let now: i64 = if secs <= i64::MAX as u64 { secs as i64 } else { i64::MAX };
        self.record_action_at(action, now);
    }

    /// The patterns, most occurrences first (in order of discovery among
    /// equals).
    pub fn get_patterns(&self) -> (r: Vec<WorkflowPattern>)
        ensures
            spec_fulls(r@) == spec_sort_desc(spec_fulls(self.patterns())),
    {
        let ghost src = spec_fulls(self.discovered@);
        let mut r: Vec<WorkflowPattern> = Vec::new();
        let mut i: usize = 0;
        while i < self.discovered.len()
            invariant
                i <= self.discovered@.len(),
                src == spec_fulls(self.discovered@),
                spec_fulls(r@) == spec_sort_desc(src.take(i as int)),
            decreases self.discovered@.len() - i,
        {
            let c = copy_pattern(&self.discovered[i]);
            let ghost sorted = spec_fulls(r@);
            let mut j: usize = r.len();
            while j > 0 && r[j - 1].occurrences < c.occurrences
                invariant
                    j <= r@.len(),
                    sorted == spec_fulls(r@),
                    forall|k: int| j <= k < r@.len() ==> (#[trigger] sorted[k]).core.occurrences < c.occurrences,
                decreases j,
            {
                j = j - 1;
            }
            proof {
                assert(j > 0 ==> sorted[j - 1].core.occurrences >= c.occurrences);
                lemma_insert_desc_at(sorted, spec_full(c), j as int);
                assert(src.take(i + 1).drop_last() =~= src.take(i as int));
                assert(src.take(i + 1).last() == spec_full(c));
            }
            r.insert(j, c);
            proof {
                assert(spec_fulls(r@) =~= sorted.insert(j as int, spec_full(c)));
            }
            i = i + 1;
        }
        assert(src.take(self.discovered@.len() as int) =~= src);
        r
    }

    /// The patterns tagged `tag`, in order of discovery.
    pub fn get_patterns_by_tag(&self, tag: &str) -> (r: Vec<WorkflowPattern>)
        ensures
            spec_fulls(r@) == spec_fulls(self.patterns()).filter(|f: PatternFull| f.tags.contains(tag@)),
    {
        let ghost src = spec_fulls(self.discovered@);
        let mut r: Vec<WorkflowPattern> = Vec::new();
        let mut i: usize = 0;
        while i < self.discovered.len()
            invariant
                i <= self.discovered@.len(),
                src == spec_fulls(self.discovered@),
                spec_fulls(r@) == src.take(i as int).filter(|f: PatternFull| f.tags.contains(tag@)),
            decreases self.discovered@.len() - i,
        {
            let p = &self.discovered[i];
            let mut found = false;
            let mut k: usize = 0;
            while k < p.tags.len()
                invariant
                    k <= p.tags@.len(),
                    found == exists|m: int| 0 <= m < k && #[trigger] p.tags@[m]@ == tag@,
                decreases p.tags@.len() - k,
            {
                if str_eq(p.tags[k].as_str(), tag) {
                    found = true;
                }
                k = k + 1;
            }
            proof {
                let f = spec_full(*p);
                assert(found == f.tags.contains(tag@)) by {
                    if found {
                        let m = choose|m: int| 0 <= m < p.tags@.len() && #[trigger] p.tags@[m]@ == tag@;
                        assert(f.tags[m] == tag@);
                    }
                    if f.tags.contains(tag@) {
                        let m = choose|m: int| 0 <= m < f.tags.len() && f.tags[m] == tag@;
                        assert(p.tags@[m]@ == tag@);
                    }
                }
                assert(src.take(i + 1) =~= src.take(i as int).push(f));
                src.take(i as int).lemma_filter_push(f, |f: PatternFull| f.tags.contains(tag@));
            }
            if found {
                let ghost before = spec_fulls(r@);
                let c = copy_pattern(p);
                r.push(c);
                assert(spec_fulls(r@) =~= before.push(spec_full(c)));
            }
            i = i + 1;
        }
        assert(src.take(self.discovered@.len() as int) =~= src);
        r
    }

    /// The counts: actions remembered, patterns found, sequences counted.
    pub fn get_stats(&self) -> (s: PatternStats)
        requires
            self.wf(),
        ensures
            s.total_actions_recorded == self.history().len(),
            s.total_patterns_discovered == self.patterns().len(),
            s.total_sequences_tracked == self.counts().len(),
    {
        PatternStats {
            total_actions_recorded: self.tracker.history_len(),
            total_patterns_discovered: self.discovered.len(),
            total_sequences_tracked: self.tracker.sequence_count(),
        }
    }
}


/// `x` placed after the last pattern with at least as many occurrences.
pub open spec fn spec_insert_desc(s: Seq<PatternFull>, x: PatternFull) -> Seq<PatternFull>
    decreases s.len(),
{
    if s.len() == 0 {
        seq![x]
    } else if s.last().core.occurrences >= x.core.occurrences {
        s.push(x)
    } else {
        spec_insert_desc(s.drop_last(), x).push(s.last())
    }
}

/// The patterns sorted by occurrences, most first, stably.
pub open spec fn spec_sort_desc(s: Seq<PatternFull>) -> Seq<PatternFull>
    decreases s.len(),
{
    if s.len() == 0 {
        Seq::empty()
    } else {
        spec_insert_desc(spec_sort_desc(s.drop_last()), s.last())
    }
}

proof fn lemma_insert_desc_at(s: Seq<PatternFull>, x: PatternFull, j: int)
    requires
        0 <= j <= s.len(),
        forall|k: int| j <= k < s.len() ==> (#[trigger] s[k]).core.occurrences < x.core.occurrences,
        j > 0 ==> s[j - 1].core.occurrences >= x.core.occurrences,
    ensures
        spec_insert_desc(s, x) == s.insert(j, x),
    decreases s.len(),
{
    if s.len() == 0 {
        assert(s.insert(j, x) =~= seq![x]);
    } else if s.last().core.occurrences >= x.core.occurrences {
        assert(j == s.len());
        assert(s.insert(j, x) =~= s.push(x));
    } else {
        let d = s.drop_last();
        assert(j < s.len());
        assert forall|k: int| j <= k < d.len() implies (#[trigger] d[k]).core.occurrences < x.core.occurrences by {
            assert(d[k] == s[k]);
        }
        if j > 0 {
            assert(d[j - 1] == s[j - 1]);
        }
        lemma_insert_desc_at(d, x, j);
        assert(d.insert(j, x).push(s.last()) =~= s.insert(j, x));
    }
}

/// The sorted patterns have non-increasing occurrences.
pub proof fn lemma_sort_desc_sorted(s: Seq<PatternFull>)
    ensures
        spec_sort_desc(s).len() == s.len(),
        forall|a: int, b: int| 0 <= a < b < spec_sort_desc(s).len()
            ==> (#[trigger] spec_sort_desc(s)[a]).core.occurrences >= (#[trigger] spec_sort_desc(s)[b]).core.occurrences,
    decreases s.len(),
{
    if s.len() > 0 {
        lemma_sort_desc_sorted(s.drop_last());
        lemma_insert_desc_sorted(spec_sort_desc(s.drop_last()), s.last());
    }
}

proof fn lemma_insert_desc_sorted(s: Seq<PatternFull>, x: PatternFull)
    requires
        forall|a: int, b: int| 0 <= a < b < s.len() ==> (#[trigger] s[a]).core.occurrences >= (#[trigger] s[b]).core.occurrences,
    ensures
        spec_insert_desc(s, x).len() == s.len() + 1,
        forall|a: int, b: int| 0 <= a < b < spec_insert_desc(s, x).len()
            ==> (#[trigger] spec_insert_desc(s, x)[a]).core.occurrences >= (#[trigger] spec_insert_desc(s, x)[b]).core.occurrences,
        forall|a: int| 0 <= a < spec_insert_desc(s, x).len() ==> {
            ||| #[trigger] spec_insert_desc(s, x)[a] == x
            ||| exists|k: int| 0 <= k < s.len() && spec_insert_desc(s, x)[a] == s[k]
        },
    decreases s.len(),
{
    let r = spec_insert_desc(s, x);
    if s.len() == 0 {
    } else if s.last().core.occurrences >= x.core.occurrences {
        assert forall|a: int, b: int| 0 <= a < b < r.len() implies (#[trigger] r[a]).core.occurrences >= (#[trigger] r[b]).core.occurrences by {
            if b < s.len() {
                assert(r[a] == s[a]);
                assert(r[b] == s[b]);
            } else {
                assert(r[a] == s[a]);
                assert(s[a].core.occurrences >= s.last().core.occurrences || a == s.len() - 1);
            }
        }
        assert forall|a: int| 0 <= a < r.len() implies {
            ||| #[trigger] r[a] == x
            ||| exists|k: int| 0 <= k < s.len() && r[a] == s[k]
        } by {
            if a < s.len() {
                assert(r[a] == s[a]);
            }
        }
    } else {
        let d = s.drop_last();
        assert forall|a: int, b: int| 0 <= a < b < d.len() implies (#[trigger] d[a]).core.occurrences >= (#[trigger] d[b]).core.occurrences by {
            assert(d[a] == s[a]);
            assert(d[b] == s[b]);
        }
        lemma_insert_desc_sorted(d, x);
        let q = spec_insert_desc(d, x);
        assert(r == q.push(s.last()));
        assert forall|a: int| 0 <= a < q.len() implies (#[trigger] q[a]).core.occurrences >= s.last().core.occurrences by {
            if q[a] != x {
                let k = choose|k: int| 0 <= k < d.len() && q[a] == d[k];
                assert(d[k] == s[k]);
                assert(s[k].core.occurrences >= s[s.len() - 1].core.occurrences);
            }
        }
        assert forall|a: int, b: int| 0 <= a < b < r.len() implies (#[trigger] r[a]).core.occurrences >= (#[trigger] r[b]).core.occurrences by {
            assert(r[a] == q[a]);
            if b < q.len() {
                assert(r[b] == q[b]);
            }
        }
        assert forall|a: int| 0 <= a < r.len() implies {
            ||| #[trigger] r[a] == x
            ||| exists|k: int| 0 <= k < s.len() && r[a] == s[k]
        } by {
            if a < q.len() {
                assert(r[a] == q[a]);
                if q[a] != x {
                    let k = choose|k: int| 0 <= k < d.len() && q[a] == d[k];
                    assert(d[k] == s[k]);
                }
            } else {
                assert(r[a] == s[s.len() - 1]);
            }
        }
    }
}

} // verus!

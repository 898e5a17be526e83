//! The repetition detector: tasks (2 to 10 actions) repeated at least three
//! times in the last day are registered, named, given automation advice and
//! ranked by how worth automating they are. Times are seconds since the epoch.
use vstd::prelude::*;
use crate::pattern_learner::{sequence_hash, spec_sequence_hash};
use crate::patterns::{
    generate_automation_suggestion, generate_task_name, spec_action_sig, spec_automation_suggestion, spec_leading_old,
    spec_repetitions, spec_seq_view, spec_task_name, ActionKind, ActionSignature, ActionType, RepetitionWindow, SeqKey,
    UserAction, MAX_TASK_LENGTH, MIN_PATTERN_LENGTH, REPETITION_WINDOW_SECS,
};
use crate::text::{hex_string, join2, spec_hex, str_eq};

verus! {

/// The id of the task of a sequence: "task_" and the hash in hexadecimal.
pub open spec fn spec_task_id(key: SeqKey) -> Seq<char> {
    "task_"@ + spec_hex(spec_sequence_hash(key) as nat)
}

/// The id of the task of a sequence (see `spec_task_id`).
pub fn generate_task_id(actions: &[ActionSignature]) -> (id: String)
    ensures
        id@ == spec_task_id(spec_seq_view(actions@)),
{
    let h = hex_string(sequence_hash(actions));
    join2("task_", h.as_str())
}

/// A task the user repeats.
#[derive(Debug, Clone)]
pub struct RepetitiveTask {
    pub id: String,
    pub name: String,
    pub actions: Vec<ActionSignature>,
    pub repetitions: usize,
    pub last_occurrence: i64,
    pub first_seen: i64,
    pub automation_suggestion: String,
}

/// What the detector keeps track of in a task.
pub struct TaskCore {
    pub id: Seq<char>,
    pub key: SeqKey,
    pub repetitions: nat,
    pub last_occurrence: i64,
    pub first_seen: i64,
}

/// The whole of a task's values.
pub struct TaskFull {
    pub core: TaskCore,
    pub name: Seq<char>,
    pub suggestion: Seq<char>,
}

pub open spec fn spec_task_core(t: RepetitiveTask) -> TaskCore {
    TaskCore {
        id: t.id@,
        key: spec_seq_view(t.actions@),
        repetitions: t.repetitions as nat,
        last_occurrence: t.last_occurrence,
        first_seen: t.first_seen,
    }
}

pub open spec fn spec_task_full(t: RepetitiveTask) -> TaskFull {
    TaskFull { core: spec_task_core(t), name: t.name@, suggestion: t.automation_suggestion@ }
}

pub open spec fn spec_task_cores(ts: Seq<RepetitiveTask>) -> Seq<TaskCore> {
    ts.map_values(|t: RepetitiveTask| spec_task_core(t))
}

pub open spec fn spec_task_fulls(ts: Seq<RepetitiveTask>) -> Seq<TaskFull> {
    ts.map_values(|t: RepetitiveTask| spec_task_full(t))
}

/// A task's name, advice and id are those of its actions.
pub open spec fn spec_task_wf(t: RepetitiveTask) -> bool {
    &&& t.name@ == spec_task_name(t.actions@)
    &&& t.automation_suggestion@ == spec_automation_suggestion(t.actions@)
    &&& t.id@ == spec_task_id(spec_seq_view(t.actions@))
}

pub open spec fn spec_has_task(cs: Seq<TaskCore>, id: Seq<char>) -> bool {
    exists|i: int| 0 <= i < cs.len() && #[trigger] cs[i].id == id
}

pub open spec fn spec_task_index(cs: Seq<TaskCore>, id: Seq<char>) -> int {
    choose|i: int| 0 <= i < cs.len() && #[trigger] cs[i].id == id
}

pub open spec fn spec_task_ids_distinct(cs: Seq<TaskCore>) -> bool {
    forall|i: int, j: int| 0 <= i < cs.len() && 0 <= j < cs.len() && i != j ==> #[trigger] cs[i].id != #[trigger] cs[j].id
}

/// The tasks once a sequence repeated `reps` times is seen at `now`: the
/// task with its id takes the count and the time; otherwise a new task
/// joins at the end, first seen now.
pub open spec fn spec_register(cs: Seq<TaskCore>, key: SeqKey, reps: nat, now: i64) -> Seq<TaskCore> {
    let id = spec_task_id(key);
    if spec_has_task(cs, id) {
        let i = spec_task_index(cs, id);
        cs.update(i, TaskCore { repetitions: reps, last_occurrence: now, ..cs[i] })
    } else {
        cs.push(TaskCore { id: id, key: key, repetitions: reps, last_occurrence: now, first_seen: now })
    }
}

/// The tasks repeated in a history, among its last 2 to 10 actions.
pub open spec fn spec_found_tasks(h: SeqKey) -> Seq<(SeqKey, nat)> {
    spec_repetitions(h, if h.len() < MAX_TASK_LENGTH { h.len() as int } else { MAX_TASK_LENGTH as int })
}

/// The tasks once each repeated sequence is registered, in order.
pub open spec fn spec_register_all(cs: Seq<TaskCore>, found: Seq<(SeqKey, nat)>, now: i64) -> Seq<TaskCore>
    decreases found.len(),
{
    if found.len() == 0 {
        cs
    } else {
        spec_register(spec_register_all(cs, found.drop_last(), now), found.last().0, found.last().1, now)
    }
}

// ---------------------------------------------------------------- how worth automating

/// The action is one that tools automate well (copy, paste, open, save).
pub open spec fn spec_automatable_kind(k: ActionKind) -> bool {
    k is Copy || k is Paste || k is FileSave || k is FileOpen
}

/// How many actions of the sequence tools automate well.
pub open spec fn spec_automatable(key: SeqKey) -> nat
    decreases key.len(),
{
    if key.len() == 0 {
        0
    } else {
        spec_automatable(key.drop_last()) + if spec_automatable_kind(key.last().1) { 1nat } else { 0nat }
    }
}

/// The automation potential of a task, as a fraction over `100 * len`:
/// repetitions count for up to 0.4 (1/20 each), the length for 0.3 per ten
/// actions, the share of well-automated actions for 0.3, capped at 1.
pub open spec fn spec_potential_num(key: SeqKey, reps: nat) -> nat {
    let len = key.len();
    let r = if 5 * reps * len <= 40 * len { 5 * reps * len } else { 40 * len };
    let s = r + 3 * len * len + 30 * spec_automatable(key);
    if s <= 100 * len { s } else { 100 * len }
}

pub open spec fn spec_potential_den(key: SeqKey) -> nat {
    100 * key.len()
}

/// Task `a` is at least as worth automating as task `b`.
pub open spec fn spec_potential_ge(a: TaskCore, b: TaskCore) -> bool {
    spec_potential_num(a.key, a.repetitions) * spec_potential_den(b.key)
        >= spec_potential_num(b.key, b.repetitions) * spec_potential_den(a.key)
}

/// Worth automating first: potential above 0.6 and at least five repetitions.
pub open spec fn spec_high_priority(c: TaskCore) -> bool {
    10 * spec_potential_num(c.key, c.repetitions) > 6 * spec_potential_den(c.key) && c.repetitions >= 5
}

fn automatable_count(actions: &[ActionSignature]) -> (n: usize)
    ensures
        n == spec_automatable(spec_seq_view(actions@)),
        n <= actions@.len(),
{
    let mut n: usize = 0;
    let mut i: usize = 0;
    while i < actions.len()
        invariant
            i <= actions@.len(),
            n <= i,
            n == spec_automatable(spec_seq_view(actions@.take(i as int))),
        decreases actions@.len() - i,
    {
        proof {
            assert(spec_seq_view(actions@.take(i + 1)).drop_last() =~= spec_seq_view(actions@.take(i as int)));
        }
        match &actions[i].action_type {
            ActionType::Copy | ActionType::Paste | ActionType::FileSave | ActionType::FileOpen => {
                n = n + 1;
            },
            _ => {},
        }
        i = i + 1;
    }
    assert(actions@.take(actions@.len() as int) =~= actions@);
    n
}

/// A task of potential `a.0 / a.1` ranks below one of `num / den`.
fn ranks_below(a: (u128, u128), num: u128, den: u128) -> (b: bool)
    requires
        a.0 <= 1000,
        a.1 <= 1000,
        num <= 1000,
        den <= 1000,
    ensures
        b == (a.0 * den < num * a.1),
{
    proof {
        assert(a.0 * den <= 1000 * 1000) by (nonlinear_arith) requires a.0 <= 1000, den <= 1000;
        assert(num * a.1 <= 1000 * 1000) by (nonlinear_arith) requires num <= 1000, a.1 <= 1000;
    }
    a.0 * den < num * a.1
}

/// The automation potential of a task repeated `reps` times, as
/// (numerator, denominator) of a fraction between 0 and 1 (0 / 0 for no
/// actions): repetitions count for up to 0.4 (1/20 each), the length for
/// 0.3 per ten actions, the share of copies, pastes, saves and opens for
/// 0.3, capped at 1. From 41 actions on, the length term alone reaches the
/// cap.
pub fn potential_of(actions: &[ActionSignature], reps: usize) -> (r: (u128, u128))
    ensures
        r.0 == spec_potential_num(spec_seq_view(actions@), reps as nat),
        r.1 == spec_potential_den(spec_seq_view(actions@)),
{
    let len: u128 = actions.len() as u128;
    proof {
        assert(spec_seq_view(actions@).len() == len);
    }
    if len > 40 {
        proof {
            assert(3 * len * len > 100 * len) by (nonlinear_arith) requires len > 40;
        }
        return (100 * len, 100 * len);
    }
    let a: u128 = automatable_count(actions) as u128;
    proof {
        assert(len * len <= 1600) by (nonlinear_arith) requires len <= 40;
    }
    let reps_part: u128 = if (reps as u128) <= 8 {
        proof {
            assert(5 * reps * len <= 40 * len) by (nonlinear_arith) requires reps <= 8;
        }
        5 * (reps as u128) * len
    } else {
        proof {
            assert(5 * reps * len >= 40 * len) by (nonlinear_arith) requires reps > 8;
        }
        40 * len
    };
    proof {
        assert(reps_part <= 1600);
        assert(3 * (len * len) <= 4800);
        assert(3 * len * len == 3 * (len * len)) by (nonlinear_arith);
        assert(a <= 40);
    }
    let s: u128 = reps_part + 3 * len * len + 30 * a;
    let den: u128 = 100 * len;
    let num: u128 = if s <= den { s } else { den };
    (num, den)
}

/// The automation potential of a task of at most ten actions as
/// (numerator, denominator), both at most 1000.
fn potential_fraction(actions: &[ActionSignature], reps: usize) -> (r: (u128, u128))
    requires
        actions@.len() <= MAX_TASK_LENGTH,
    ensures
        r.0 == spec_potential_num(spec_seq_view(actions@), reps as nat),
        r.1 == spec_potential_den(spec_seq_view(actions@)),
        r.0 <= r.1 <= 1000,
{
    potential_of(actions, reps)
}

// ---------------------------------------------------------------- the detector

/// Counts of the detector.
#[derive(Debug, Clone, Copy, PartialEq, Eq, Structural)]
pub struct RepetitionStats {
    pub total_tasks_detected: usize,
    pub total_repetitions: usize,
    pub high_priority_tasks: usize,
}

/// Finds the tasks the user repeats.
pub struct RepetitionDetector {
    window: RepetitionWindow,
    tasks: Vec<RepetitiveTask>,
}

/// Recording `action` at `now`: the action joins the window, which then
/// drops the actions older than a day, and each task found in the window
/// is registered.
pub open spec fn spec_record_step(old: RepetitionDetector, new: RepetitionDetector, action: UserAction, now: i64) -> bool {
    let hp = old.history().push(spec_action_sig(action));
    let tp = old.timestamps().push(action.timestamp);
    let p = spec_leading_old(tp, (now - REPETITION_WINDOW_SECS) as i64) as int;
    &&& new.history() == hp.skip(p)
    &&& new.timestamps() == tp.skip(p)
    &&& spec_task_cores(new.tasks()) == spec_register_all(spec_task_cores(old.tasks()), spec_found_tasks(new.history()), now)
}

impl RepetitionDetector {
    pub closed spec fn history(&self) -> SeqKey {
        self.window.history()
    }

    pub closed spec fn timestamps(&self) -> Seq<i64> {
        self.window.timestamps()
    }

    /// The tasks, in order of detection.
    pub closed spec fn tasks(&self) -> Seq<RepetitiveTask> {
        self.tasks@
    }

    pub closed spec fn wf(&self) -> bool {
        &&& self.window.wf()
        &&& spec_task_ids_distinct(spec_task_cores(self.tasks@))
        &&& forall|i: int| 0 <= i < self.tasks@.len() ==> spec_task_wf(#[trigger] self.tasks@[i])
        &&& forall|i: int| 0 <= i < self.tasks@.len() ==> (#[trigger] self.tasks@[i]).actions@.len() <= MAX_TASK_LENGTH
    }

    /// Nothing seen yet.
    pub fn new() -> (d: Self)
        ensures
            d.wf(),
            d.history().len() == 0,
            d.tasks().len() == 0,
    {
        RepetitionDetector { window: RepetitionWindow::new(), tasks: Vec::new() }
    }

    fn register(&mut self, actions: Vec<ActionSignature>, repetitions: usize, now: i64)
        requires
            old(self).wf(),
            actions@.len() <= MAX_TASK_LENGTH,
        ensures
            final(self).wf(),
            final(self).window == old(self).window,
            spec_task_cores(final(self).tasks@) == spec_register(spec_task_cores(old(self).tasks@),
                spec_seq_view(actions@), repetitions as nat, now),
    {
        let id = generate_task_id(actions.as_slice());
        let ghost cs = spec_task_cores(self.tasks@);
        let ghost key = spec_seq_view(actions@);
        let mut i: usize = 0;
        while i < self.tasks.len()
            invariant
                self.wf(),
                self.window == old(self).window,
                self.tasks@ == old(self).tasks@,
                cs == spec_task_cores(self.tasks@),
                key == spec_seq_view(actions@),
                id@ == spec_task_id(key),
                i <= self.tasks@.len(),
                forall|k: int| 0 <= k < i ==> (#[trigger] cs[k]).id != id@,
            decreases self.tasks@.len() - i,
        {
            if str_eq(self.tasks[i].id.as_str(), id.as_str()) {
                proof {
                    assert(cs[i as int].id == id@);
                    let j = spec_task_index(cs, id@);
                    assert(cs[j].id == id@);
                    assert(j == i as int);
                }
                let mut t = self.tasks.remove(i);
                t.repetitions = repetitions;
                t.last_occurrence = now;
                self.tasks.insert(i, t);
                proof {
                    let ncs = spec_task_cores(self.tasks@);
                    assert(self.tasks@ =~= old(self).tasks@.update(i as int, t));
                    assert(ncs =~= cs.update(i as int, TaskCore { repetitions: repetitions as nat, last_occurrence: now, ..cs[i as int] }));
                    assert forall|a: int, b: int| 0 <= a < ncs.len() && 0 <= b < ncs.len() && a != b implies #[trigger] ncs[a].id != #[trigger] ncs[b].id by {
                        assert(ncs[a].id == cs[a].id);
                        assert(ncs[b].id == cs[b].id);
                    }
                    assert forall|k: int| 0 <= k < self.tasks@.len() implies spec_task_wf(#[trigger] self.tasks@[k])
                        && self.tasks@[k].actions@.len() <= MAX_TASK_LENGTH by {
                        if k != i {
                            assert(self.tasks@[k] == old(self).tasks@[k]);
                        } else {
                            assert(spec_task_wf(old(self).tasks@[k]));
                        }
                    }
                    assert(spec_has_task(cs, spec_task_id(key)));
                    assert(ncs == spec_register(cs, key, repetitions as nat, now));
                }
                return;
            }
            i = i + 1;
        }
        proof {
            assert(!spec_has_task(cs, id@));
        }
        let name = generate_task_name(actions.as_slice());
        let suggestion = String::from_str(generate_automation_suggestion(actions.as_slice()));
        let t = RepetitiveTask {
            id: id,
            name: name,
            actions: actions,
            repetitions: repetitions,
            last_occurrence: now,
            first_seen: now,
            automation_suggestion: suggestion,
        };
        self.tasks.push(t);
        proof {
            let ncs = spec_task_cores(self.tasks@);
            assert(ncs =~= cs.push(spec_task_core(t)));
            assert forall|a: int, b: int| 0 <= a < ncs.len() && 0 <= b < ncs.len() && a != b implies #[trigger] ncs[a].id != #[trigger] ncs[b].id by {
                if a < cs.len() {
                    assert(ncs[a] == cs[a]);
                }
                if b < cs.len() {
                    assert(ncs[b] == cs[b]);
                }
            }
            assert forall|k: int| 0 <= k < self.tasks@.len() implies spec_task_wf(#[trigger] self.tasks@[k])
                && self.tasks@[k].actions@.len() <= MAX_TASK_LENGTH by {
                if k < old(self).tasks@.len() {
                    assert(self.tasks@[k] == old(self).tasks@[k]);
                }
            }
        }
    }

    /// Records an action at `now` (see `spec_record_step`): the window drops the actions older than
    /// a day, and each task (2 to 10 last actions) repeated at least three
    /// times, shortest first, is registered.
    pub fn record_action_at(&mut self, action: &UserAction, now: i64)
        requires
            old(self).wf(),
            now >= i64::MIN + REPETITION_WINDOW_SECS,
        ensures
            final(self).wf(),
            spec_record_step(*old(self), *final(self), *action, now),
    {
        let found = self.window.record_action_at(action, now);
        let ghost w = self.window;
        let ghost h = self.history();
        let ghost fs = spec_found_tasks(h);
        let ghost cs0 = spec_task_cores(self.tasks@);
        proof {
            lemma_repetition_keys(h, if h.len() < MAX_TASK_LENGTH { h.len() as int } else { MAX_TASK_LENGTH as int });
        }
        let mut rest = found;
        let total = rest.len();
        let mut i: usize = 0;
        while rest.len() > 0
            invariant
                self.wf(),
                self.window == w,
                h == self.history(),
                fs.len() == total,
                i + rest@.len() == total,
                forall|k: int| 0 <= k < rest@.len() ==> (spec_seq_view((#[trigger] rest@[k]).0@), rest@[k].1 as nat) == fs[i + k],
                forall|k: int| 0 <= k < fs.len() ==> (#[trigger] fs[k]).0.len() <= MAX_TASK_LENGTH,
                spec_task_cores(self.tasks@) == spec_register_all(cs0, fs.take(i as int), now),
            decreases rest@.len(),
        {
            let ghost old_rest = rest@;
            let (seq, count) = rest.remove(0);
            proof {
                assert((spec_seq_view(seq@), count as nat) == fs[i as int]);
                assert forall|k: int| 0 <= k < rest@.len() implies (spec_seq_view((#[trigger] rest@[k]).0@), rest@[k].1 as nat) == fs[i + 1 + k] by {
                    assert(rest@[k] == old_rest[k + 1]);
                }
                assert(fs.take(i + 1).drop_last() =~= fs.take(i as int));
                assert(fs.take(i + 1).last() == fs[i as int]);
                assert(spec_seq_view(seq@).len() == seq@.len());
            }
            self.register(seq, count, now);
            i = i + 1;
        }
        proof {
            assert(fs.take(total as int) =~= fs);
        }
    }

    /// Records an action at the present time (see `spec_record_step`).
    pub fn record_action(&mut self, action: &UserAction)
        requires
            old(self).wf(),
        ensures
            final(self).wf(),
            exists|now: i64| #[trigger] spec_record_step(*old(self), *final(self), *action, now),
    {
        let secs = crate::clock::unix_time_secs();
        let now: i64 = if secs <= i64::MAX as u64 { secs as i64 } else { i64::MAX };
        self.record_action_at(action, now);
    }

    /// The tasks, most worth automating first (in order of detection among
    /// equals).
    pub fn get_repetitive_tasks(&self) -> (r: Vec<RepetitiveTask>)
        requires
            self.wf(),
        ensures
            spec_task_fulls(r@) == spec_sort_tasks(spec_task_fulls(self.tasks())),
    {
        let ghost src = spec_task_fulls(self.tasks@);
        let mut r: Vec<RepetitiveTask> = Vec::new();
        let mut keys: Vec<(u128, u128)> = Vec::new();
        let mut i: usize = 0;
        while i < self.tasks.len()
            invariant
                self.wf(),
                i <= self.tasks@.len(),
                src == spec_task_fulls(self.tasks@),
                spec_task_fulls(r@) == spec_sort_tasks(src.take(i as int)),
                keys@.len() == r@.len(),
                forall|k: int| 0 <= k < r@.len() ==> (#[trigger] keys@[k]).0 == spec_potential_num(spec_task_fulls(r@)[k].core.key, spec_task_fulls(r@)[k].core.repetitions)
                    && keys@[k].1 == spec_potential_den(spec_task_fulls(r@)[k].core.key),
                forall|k: int| 0 <= k < keys@.len() ==> (#[trigger] keys@[k]).0 <= 1000 && keys@[k].1 <= 1000,
            decreases self.tasks@.len() - i,
        {
            let t = copy_task(&self.tasks[i]);
            let (num, den) = potential_fraction(self.tasks[i].actions.as_slice(), self.tasks[i].repetitions);
            let ghost sorted = spec_task_fulls(r@);
            let ghost x = spec_task_full(t);
            let mut j: usize = r.len();
            while j > 0 && ranks_below(keys[j - 1], num, den)
                invariant
                    j <= r@.len(),
                    keys@.len() == r@.len(),
                    sorted == spec_task_fulls(r@),
                    x == spec_task_full(t),
                    num == spec_potential_num(x.core.key, x.core.repetitions),
                    den == spec_potential_den(x.core.key),
                    forall|k: int| 0 <= k < r@.len() ==> (#[trigger] keys@[k]).0 == spec_potential_num(sorted[k].core.key, sorted[k].core.repetitions)
                        && keys@[k].1 == spec_potential_den(sorted[k].core.key),
                    forall|k: int| j <= k < r@.len() ==> !spec_potential_ge(#[trigger] sorted[k].core, x.core),
                    forall|k: int| 0 <= k < keys@.len() ==> (#[trigger] keys@[k]).0 <= 1000 && keys@[k].1 <= 1000,
                    num <= 1000,
                    den <= 1000,
                decreases j,
            {
                j = j - 1;
            }
            proof {
                assert(j > 0 ==> spec_potential_ge(sorted[j - 1].core, x.core));
                lemma_insert_task_at(sorted, x, j as int);
                assert(src.take(i + 1).drop_last() =~= src.take(i as int));
                assert(src.take(i + 1).last() == x);
            }
            let ghost keys_before = keys@;
            r.insert(j, t);
            keys.insert(j, (num, den));
            proof {
                assert(spec_task_fulls(r@) =~= sorted.insert(j as int, x));
                assert forall|k: int| 0 <= k < r@.len() implies (#[trigger] keys@[k]).0 == spec_potential_num(spec_task_fulls(r@)[k].core.key, spec_task_fulls(r@)[k].core.repetitions)
                    && keys@[k].1 == spec_potential_den(spec_task_fulls(r@)[k].core.key) by {
                    if k < j {
                        assert(keys@[k] == keys_before[k]);
                    } else if k > j {
                        assert(keys@[k] == keys_before[k - 1]);
                    }
                }
                assert forall|k: int| 0 <= k < keys@.len() implies (#[trigger] keys@[k]).0 <= 1000 && keys@[k].1 <= 1000 by {
                    if k < j {
                        assert(keys@[k] == keys_before[k]);
                    } else if k > j {
                        assert(keys@[k] == keys_before[k - 1]);
                    }
                }
            }
            i = i + 1;
        }
        assert(src.take(self.tasks@.len() as int) =~= src);
        r
    }

    /// The automation potential of a task repeated `repetitions` times (see
    /// `potential_of`).
    pub fn calculate_automation_potential(&self, actions: &[ActionSignature], repetitions: usize) -> (r: (u128, u128))
        ensures
            r.0 == spec_potential_num(spec_seq_view(actions@), repetitions as nat),
            r.1 == spec_potential_den(spec_seq_view(actions@)),
    {
        potential_of(actions, repetitions)
    }

    /// The tasks worth automating first (potential above 0.6, at least five
    /// repetitions), in order of detection.
    pub fn get_high_priority_tasks(&self) -> (r: Vec<RepetitiveTask>)
        requires
            self.wf(),
        ensures
            spec_task_fulls(r@) == spec_task_fulls(self.tasks()).filter(|f: TaskFull| spec_high_priority(f.core)),
    {
        let ghost src = spec_task_fulls(self.tasks@);
        let mut r: Vec<RepetitiveTask> = Vec::new();
        let mut i: usize = 0;
        while i < self.tasks.len()
            invariant
                self.wf(),
                i <= self.tasks@.len(),
                src == spec_task_fulls(self.tasks@),
                spec_task_fulls(r@) == src.take(i as int).filter(|f: TaskFull| spec_high_priority(f.core)),
            decreases self.tasks@.len() - i,
        {
            let (num, den) = potential_fraction(self.tasks[i].actions.as_slice(), self.tasks[i].repetitions);
            let ghost f = spec_task_full(self.tasks@[i as int]);
            proof {
                assert(src.take(i + 1) =~= src.take(i as int).push(f));
                src.take(i as int).lemma_filter_push(f, |f: TaskFull| spec_high_priority(f.core));
            }
            if 10 * num > 6 * den && self.tasks[i].repetitions >= 5 {
                let ghost before = spec_task_fulls(r@);
                let c = copy_task(&self.tasks[i]);
                r.push(c);
                assert(spec_task_fulls(r@) =~= before.push(spec_task_full(c)));
            }
            i = i + 1;
        }
        assert(src.take(self.tasks@.len() as int) =~= src);
        r
    }

    /// The counts: tasks, repetitions (their sum, stopping at the largest
    /// value) and tasks worth automating first.
    pub fn get_stats(&self) -> (s: RepetitionStats)
        requires
            self.wf(),
        ensures
            s.total_tasks_detected == self.tasks().len(),
            s.total_repetitions == spec_sat_sum(spec_task_cores(self.tasks())),
            s.high_priority_tasks == spec_task_fulls(self.tasks()).filter(|f: TaskFull| spec_high_priority(f.core)).len(),
    {
        let mut sum: usize = 0;
        let mut i: usize = 0;
        while i < self.tasks.len()
            invariant
                i <= self.tasks@.len(),
                sum == spec_sat_sum(spec_task_cores(self.tasks@.take(i as int))),
            decreases self.tasks@.len() - i,
        {
            proof {
                assert(spec_task_cores(self.tasks@.take(i + 1)).drop_last() =~= spec_task_cores(self.tasks@.take(i as int)));
            }
            sum = sum.saturating_add(self.tasks[i].repetitions);
            i = i + 1;
        }
        assert(self.tasks@.take(self.tasks@.len() as int) =~= self.tasks@);
        let high = self.get_high_priority_tasks();
        proof {
            assert(spec_task_fulls(high@).len() == high@.len());
        }
        RepetitionStats { total_tasks_detected: self.tasks.len(), total_repetitions: sum, high_priority_tasks: high.len() }
    }
}

/// The sum of the repetitions, stopping at the largest value.
pub open spec fn spec_sat_sum(cs: Seq<TaskCore>) -> nat
    decreases cs.len(),
{
    if cs.len() == 0 {
        0
    } else {
        let s = spec_sat_sum(cs.drop_last()) + cs.last().repetitions;
        if s <= usize::MAX { s } else { usize::MAX as nat }
    }
}

/// A copy of a task.
pub fn copy_task(t: &RepetitiveTask) -> (c: RepetitiveTask)
    ensures
        spec_task_full(c) == spec_task_full(*t),
        c.actions@.len() == t.actions@.len(),
{
    let c = RepetitiveTask {
        id: t.id.clone(),
        name: t.name.clone(),
        actions: crate::patterns::copy_signatures(t.actions.as_slice()),
        repetitions: t.repetitions,
        last_occurrence: t.last_occurrence,
        first_seen: t.first_seen,
        automation_suggestion: t.automation_suggestion.clone(),
    };
    assert(spec_seq_view(c.actions@).len() == c.actions@.len());
    assert(spec_seq_view(t.actions@).len() == t.actions@.len());
    c
}

/// `x` placed after the last task at least as worth automating.
pub open spec fn spec_insert_task(s: Seq<TaskFull>, x: TaskFull) -> Seq<TaskFull>
    decreases s.len(),
{
    if s.len() == 0 {
        seq![x]
    } else if spec_potential_ge(s.last().core, x.core) {
        s.push(x)
    } else {
        spec_insert_task(s.drop_last(), x).push(s.last())
    }
}

/// The tasks sorted by automation potential, most first, stably.
pub open spec fn spec_sort_tasks(s: Seq<TaskFull>) -> Seq<TaskFull>
    decreases s.len(),
{
    if s.len() == 0 {
        Seq::empty()
    } else {
        spec_insert_task(spec_sort_tasks(s.drop_last()), s.last())
    }
}

proof fn lemma_insert_task_at(s: Seq<TaskFull>, x: TaskFull, j: int)
    requires
        0 <= j <= s.len(),
        forall|k: int| j <= k < s.len() ==> !spec_potential_ge(#[trigger] s[k].core, x.core),
        j > 0 ==> spec_potential_ge(s[j - 1].core, x.core),
    ensures
        spec_insert_task(s, x) == s.insert(j, x),
    decreases s.len(),
{
    if s.len() == 0 {
        assert(s.insert(j, x) =~= seq![x]);
    } else if spec_potential_ge(s.last().core, x.core) {
        assert(j == s.len());
        assert(s.insert(j, x) =~= s.push(x));
    } else {
        let d = s.drop_last();
        assert(j < s.len());
        assert forall|k: int| j <= k < d.len() implies !spec_potential_ge(#[trigger] d[k].core, x.core) by {
            assert(d[k] == s[k]);
        }
        if j > 0 {
            assert(d[j - 1] == s[j - 1]);
        }
        lemma_insert_task_at(d, x, j);
        assert(d.insert(j, x).push(s.last()) =~= s.insert(j, x));
    }
}

proof fn lemma_repetition_keys(h: SeqKey, n: int)
    requires
        n <= MAX_TASK_LENGTH,
        n <= h.len(),
    ensures
        forall|i: int| 0 <= i < spec_repetitions(h, n).len() ==> (#[trigger] spec_repetitions(h, n)[i]).0.len() <= MAX_TASK_LENGTH,
    decreases n,
{
    if n >= MIN_PATTERN_LENGTH {
        lemma_repetition_keys(h, n - 1);
        let prev = spec_repetitions(h, n - 1);
        let all = spec_repetitions(h, n);
        assert forall|i: int| 0 <= i < all.len() implies (#[trigger] all[i]).0.len() <= MAX_TASK_LENGTH by {
            if i < prev.len() {
                assert(all[i] == prev[i]);
            } else {
                assert(all[i].0 == crate::patterns::spec_suffix(h, n));
            }
        }
    }
}

proof fn lemma_potential_ge_transitive(a: TaskCore, b: TaskCore, c: TaskCore)
    requires
        a.key.len() > 0,
        b.key.len() > 0,
        c.key.len() > 0,
        spec_potential_ge(a, b),
        spec_potential_ge(b, c),
    ensures
        spec_potential_ge(a, c),
{
    let na = spec_potential_num(a.key, a.repetitions) as int;
    let nb = spec_potential_num(b.key, b.repetitions) as int;
    let nc = spec_potential_num(c.key, c.repetitions) as int;
    let da = spec_potential_den(a.key) as int;
    let db = spec_potential_den(b.key) as int;
    let dc = spec_potential_den(c.key) as int;
    assert(na * dc >= nc * da) by (nonlinear_arith)
        requires
            na * db >= nb * da,
            nb * dc >= nc * db,
            da > 0,
            db > 0,
            dc > 0,
            na >= 0,
            nb >= 0,
            nc >= 0,
    {
        assert(na * db * dc >= nb * da * dc);
        assert(nb * dc * da >= nc * db * da);
    }
}

/// Tasks of non-empty actions, ranked by automation potential, most first.
pub open spec fn spec_ranked(s: Seq<TaskFull>) -> bool {
    &&& forall|a: int| 0 <= a < s.len() ==> (#[trigger] s[a]).core.key.len() > 0
    &&& forall|a: int, b: int| 0 <= a < b < s.len() ==> spec_potential_ge((#[trigger] s[a]).core, (#[trigger] s[b]).core)
}

proof fn lemma_insert_task_ranked(s: Seq<TaskFull>, x: TaskFull)
    requires
        spec_ranked(s),
        x.core.key.len() > 0,
    ensures
        spec_ranked(spec_insert_task(s, x)),
        spec_insert_task(s, x).len() == s.len() + 1,
        forall|a: int| 0 <= a < spec_insert_task(s, x).len() ==> {
            ||| #[trigger] spec_insert_task(s, x)[a] == x
            ||| exists|k: int| 0 <= k < s.len() && spec_insert_task(s, x)[a] == s[k]
        },
    decreases s.len(),
{
    let r = spec_insert_task(s, x);
    if s.len() == 0 {
        assert(r == seq![x]);
    } else if spec_potential_ge(s.last().core, x.core) {
        assert(r == s.push(x));
        assert forall|a: int, b: int| 0 <= a < b < r.len() implies spec_potential_ge((#[trigger] r[a]).core, (#[trigger] r[b]).core) by {
            assert(r[a] == s[a]);
            if b < s.len() {
                assert(r[b] == s[b]);
            } else if a < s.len() - 1 {
                lemma_potential_ge_transitive(s[a].core, s[s.len() - 1].core, x.core);
            }
        }
        assert forall|a: int| 0 <= a < r.len() implies {
            ||| #[trigger] r[a] == x
            ||| exists|k: int| 0 <= k < s.len() && r[a] == s[k]
        } by {
            if a < s.len() {
                assert(r[a] == s[a]);
            }
        }
    } else {
        let d = s.drop_last();
        let l = s.last();
        assert forall|a: int, b: int| 0 <= a < b < d.len() implies spec_potential_ge((#[trigger] d[a]).core, (#[trigger] d[b]).core) by {
            assert(d[a] == s[a]);
            assert(d[b] == s[b]);
        }
        assert forall|a: int| 0 <= a < d.len() implies (#[trigger] d[a]).core.key.len() > 0 by {
            assert(d[a] == s[a]);
        }
        lemma_insert_task_ranked(d, x);
        let q = spec_insert_task(d, x);
        assert(r == q.push(l));
        // not ge(l, x) gives ge(x, l) for positive denominators
        assert(spec_potential_ge(x.core, l.core)) by {
            let nl = spec_potential_num(l.core.key, l.core.repetitions) as int;
            let nx = spec_potential_num(x.core.key, x.core.repetitions) as int;
            let dl = spec_potential_den(l.core.key) as int;
            let dx = spec_potential_den(x.core.key) as int;
            assert(!(nl * dx >= nx * dl));
        }
        assert forall|a: int| 0 <= a < q.len() implies spec_potential_ge((#[trigger] q[a]).core, l.core) by {
            if q[a] == x {
            } else {
                let k = choose|k: int| 0 <= k < d.len() && q[a] == d[k];
                assert(d[k] == s[k]);
                assert(s[s.len() - 1] == l);
            }
        }
        assert forall|a: int, b: int| 0 <= a < b < r.len() implies spec_potential_ge((#[trigger] r[a]).core, (#[trigger] r[b]).core) by {
            assert(r[a] == q[a]);
            if b < q.len() {
                assert(r[b] == q[b]);
            }
        }
        assert forall|a: int| 0 <= a < r.len() implies (#[trigger] r[a]).core.key.len() > 0 by {
            if a < q.len() {
                assert(r[a] == q[a]);
                if q[a] != x {
                    let k = choose|k: int| 0 <= k < d.len() && q[a] == d[k];
                    assert(d[k] == s[k]);
                }
            }
        }
        assert forall|a: int| 0 <= a < r.len() implies {
            ||| #[trigger] r[a] == x
            ||| exists|k: int| 0 <= k < s.len() && r[a] == s[k]
        } by {
            if a < q.len() {
                assert(r[a] == q[a]);
                if q[a] != x {
                    let k = choose|k: int| 0 <= k < d.len() && q[a] == d[k];
                    assert(d[k] == s[k]);
                }
            } else {
                assert(r[a] == s[s.len() - 1]);
            }
        }
    }
}

/// The tasks are listed most worth automating first: sorting tasks of
/// non-empty actions ranks them by automation potential, and keeps their number.
pub proof fn lemma_sort_tasks_ranked(s: Seq<TaskFull>)
    requires
        forall|a: int| 0 <= a < s.len() ==> (#[trigger] s[a]).core.key.len() > 0,
    ensures
        spec_sort_tasks(s).len() == s.len(),
        spec_ranked(spec_sort_tasks(s)),
    decreases s.len(),
{
    if s.len() > 0 {
        let d = s.drop_last();
        assert forall|a: int| 0 <= a < d.len() implies (#[trigger] d[a]).core.key.len() > 0 by {
            assert(d[a] == s[a]);
        }
        lemma_sort_tasks_ranked(d);
        lemma_insert_task_ranked(spec_sort_tasks(d), s.last());
    }
}

/// Every action of a task made only of copies, pastes, file saves and file
/// opens counts as automatable.
proof fn lemma_all_automatable(key: SeqKey)
    requires
        forall|i: int| 0 <= i < key.len() ==> (#[trigger] key[i].1 is Copy || key[i].1 is Paste
            || key[i].1 is FileSave || key[i].1 is FileOpen),
    ensures
        spec_automatable(key) == key.len(),
    decreases key.len(),
{
    if key.len() > 0 {
        let init = key.drop_last();
        assert forall|i: int| 0 <= i < init.len() implies (#[trigger] init[i].1 is Copy || init[i].1 is Paste
            || init[i].1 is FileSave || init[i].1 is FileOpen) by {
            assert(init[i] == key[i]);
        }
        lemma_all_automatable(init);
        assert(key.last() == key[key.len() - 1]);
    }
}

/// A task of `n` actions, all copies, pastes, file saves or file opens,
/// repeated `reps` times has the full type share: its potential is
/// `min(min(5 reps, 40) n + 3 n^2 + 30 n, 100 n)` over `100 n`.
pub proof fn lemma_potential_of_automatable_task(key: SeqKey, reps: nat)
    requires
        forall|i: int| 0 <= i < key.len() ==> (#[trigger] key[i].1 is Copy || key[i].1 is Paste
            || key[i].1 is FileSave || key[i].1 is FileOpen),
    ensures
        ({
            let n = key.len();
            let per = if 5 * reps <= 40 { 5 * reps } else { 40 };
            let s = per * n + 3 * n * n + 30 * n;
            spec_potential_num(key, reps) == if s <= 100 * n { s } else { 100 * n }
        }),
        spec_potential_den(key) == 100 * key.len(),
{
    lemma_all_automatable(key);
    let n = key.len();
    if 5 * reps <= 40 {
        assert(5 * reps * n <= 40 * n) by (nonlinear_arith) requires 5 * reps <= 40;
    } else {
        assert(5 * reps * n >= 40 * n) by (nonlinear_arith) requires 5 * reps > 40;
        if n > 0 {
            assert(5 * reps * n > 40 * n) by (nonlinear_arith) requires 5 * reps > 40, n > 0;
        }
    }
    assert((5 * reps) * n == 5 * reps * n) by (nonlinear_arith);
}

} // verus!

//! Daily digest: counts the suggestions shown and accepted, per application,
//! and summarises the day.
use vstd::prelude::*;
use crate::text::{decimal_string, join3, spec_decimal};

verus! {

/// Number of suggestions shown in one application.
#[derive(Debug, Clone)]
pub struct AppUsage {
    pub name: String,
    pub count: u32,
}

impl View for AppUsage {
    type V = (Seq<char>, u32);

    open spec fn view(&self) -> (Seq<char>, u32) {
        (self.name@, self.count)
    }
}

/// The day's statistics.
#[derive(Debug, Clone)]
pub struct DigestStats {
    pub suggestions_shown: u32,
    pub suggestions_accepted: u32,
    pub time_saved_minutes: u32,
    pub top_apps: Vec<AppUsage>,
    pub highlights: Vec<String>,
}

/// Minutes saved per accepted suggestion.
pub const MINUTES_PER_ACCEPTED: u32 = 2;

/// Number of applications in the top list.
pub const TOP_APPS: usize = 3;

/// Names in a usage list are pairwise distinct.
pub open spec fn spec_distinct_names(apps: Seq<(Seq<char>, u32)>) -> bool {
    forall|i: int, j: int| 0 <= i < apps.len() && 0 <= j < apps.len() && i != j ==> apps[i].0 != apps[j].0
}

/// Index of the application `name` in a usage list, if present.
pub open spec fn spec_app_index(apps: Seq<(Seq<char>, u32)>, name: Seq<char>) -> Option<int> {
    if exists|i: int| 0 <= i < apps.len() && apps[i].0 == name {
        Some(choose|i: int| 0 <= i < apps.len() && apps[i].0 == name)
    } else {
        None
    }
}

/// Number of suggestions shown so far in application `name`.
pub open spec fn spec_app_count(apps: Seq<(Seq<char>, u32)>, name: Seq<char>) -> u32 {
    match spec_app_index(apps, name) {
        Some(i) => apps[i].1,
        None => 0,
    }
}

/// Usage list after one more suggestion shown in `name`.
pub open spec fn spec_record_app(apps: Seq<(Seq<char>, u32)>, name: Seq<char>) -> Seq<(Seq<char>, u32)> {
    match spec_app_index(apps, name) {
        Some(i) => apps.update(i, (name, (apps[i].1 + 1) as u32)),
        None => apps.push((name, 1u32)),
    }
}

/// Acceptance rate in percent, rounded down; saturates at `u32::MAX` (and is
/// `u32::MAX` when nothing was shown).
pub open spec fn spec_acceptance_rate(shown: u32, accepted: u32) -> u32 {
    if shown == 0 {
        u32::MAX
    } else if (accepted as int) * 100 / (shown as int) > u32::MAX as int {
        u32::MAX
    } else {
        ((accepted as int) * 100 / (shown as int)) as u32
    }
}

/// The highlights of the day, in order.
pub open spec fn spec_highlights(shown: u32, accepted: u32) -> Seq<Seq<char>> {
    let time_saved = accepted * 2;
    let a: Seq<Seq<char>> = if accepted > 0 {
        seq!["Tu as accepté "@ + spec_decimal(spec_acceptance_rate(shown, accepted) as nat)
            + "% des suggestions 🎯"@]
    } else {
        Seq::empty()
    };
    let b: Seq<Seq<char>> = if time_saved >= 10 {
        a.push(spec_decimal(time_saved as nat) + " min gagnées sur du debugging"@)
    } else {
        a
    };
    if accepted >= 5 {
        b.push("Ton meilleur jour cette semaine 🚀"@)
    } else {
        b
    }
}

/// `idx` gives, for each entry of `top`, its distinct position in `apps`,
/// and no entry left out counts more than any entry kept.
pub open spec fn spec_top_positions(apps: Seq<(Seq<char>, u32)>, top: Seq<(Seq<char>, u32)>, idx: Seq<int>) -> bool {
    &&& idx.len() == top.len()
    &&& forall|k: int| 0 <= k < idx.len() ==> 0 <= #[trigger] idx[k] < apps.len() && top[k] == apps[idx[k]]
    &&& forall|k: int, l: int| 0 <= k < l < idx.len() ==> idx[k] != idx[l]
    &&& forall|k: int, j: int| #![trigger apps[j], top[k]]
        0 <= k < idx.len() && 0 <= j < apps.len() && !idx.contains(j) ==> apps[j].1 <= top[k].1
}

/// `top` is a top list of `apps`: at most `TOP_APPS` distinct entries of the
/// list, by decreasing count, and no entry left out counts more than any
/// entry kept.
pub open spec fn spec_is_top_list(apps: Seq<(Seq<char>, u32)>, top: Seq<(Seq<char>, u32)>) -> bool {
    &&& top.len() == if apps.len() < TOP_APPS { apps.len() } else { TOP_APPS as nat }
    &&& exists|idx: Seq<int>| #[trigger] spec_top_positions(apps, top, idx)
    &&& forall|k: int, l: int| 0 <= k < l < top.len() ==> top[k].1 >= top[l].1
}

/// The entries of a top list of applications with distinct names have
/// distinct names.
pub proof fn lemma_top_list_names_distinct(apps: Seq<(Seq<char>, u32)>, top: Seq<(Seq<char>, u32)>)
    requires
        spec_distinct_names(apps),
        spec_is_top_list(apps, top),
    ensures
        spec_distinct_names(top),
{
    let idx = choose|idx: Seq<int>| #[trigger] spec_top_positions(apps, top, idx);
    assert forall|i: int, j: int| 0 <= i < top.len() && 0 <= j < top.len() && i != j implies top[i].0 != top[j].0 by {
        assert(top[i] == apps[idx[i]]);
        assert(top[j] == apps[idx[j]]);
        if i < j {
            assert(idx[i] != idx[j]);
        } else {
            assert(idx[j] != idx[i]);
        }
    }
}

/// Collects the suggestions of the day.
pub struct DigestManager {
    suggestions_shown: u32,
    suggestions_accepted: u32,
    app_usage: Vec<AppUsage>,
}

impl DigestManager {
    #[verifier::type_invariant]
    spec fn inv(self) -> bool {
        spec_distinct_names(self.apps())
    }

    /// Suggestions shown today.
    pub closed spec fn shown(&self) -> u32 {
        self.suggestions_shown
    }

    /// Suggestions accepted today.
    pub closed spec fn accepted(&self) -> u32 {
        self.suggestions_accepted
    }

    /// Suggestions shown per application, in order of first appearance.
    pub closed spec fn apps(&self) -> Seq<(Seq<char>, u32)> {
        self.app_usage@.map_values(|u: AppUsage| u@)
    }

    pub fn new() -> (m: Self)
        ensures
            m.shown() == 0,
            m.accepted() == 0,
            m.apps() == Seq::<(Seq<char>, u32)>::empty(),
    {
        let m = DigestManager { suggestions_shown: 0, suggestions_accepted: 0, app_usage: Vec::new() };
        assert(m.apps() =~= Seq::<(Seq<char>, u32)>::empty());
        m
    }

    /// Index of an application in the usage list.
    fn find_app(&self, app_name: &str) -> (r: Option<usize>)
        ensures
            match r {
                Some(i) => i < self.apps().len() && self.apps()[i as int].0 == app_name@,
                None => forall|j: int| 0 <= j < self.apps().len() ==> self.apps()[j].0 != app_name@,
            },
    {
        let name = String::from_str(app_name);
        let mut i: usize = 0;
        while i < self.app_usage.len()
            invariant
                0 <= i <= self.app_usage@.len(),
                name@ == app_name@,
                forall|j: int| 0 <= j < i ==> self.apps()[j].0 != app_name@,
            decreases self.app_usage@.len() - i,
        {
            if self.app_usage[i].name == name {
                return Some(i);
            }
            i = i + 1;
        }
        None
    }

    /// Records a suggestion shown in an application.
    pub fn record_suggestion_shown(&mut self, app_name: &str)
        requires
            old(self).shown() < u32::MAX,
            spec_app_count(old(self).apps(), app_name@) < u32::MAX,
        ensures
            final(self).shown() == old(self).shown() + 1,
            final(self).accepted() == old(self).accepted(),
            final(self).apps() == spec_record_app(old(self).apps(), app_name@),
            spec_app_count(final(self).apps(), app_name@) == spec_app_count(old(self).apps(), app_name@) + 1,
    {
        proof {
            use_type_invariant(&*self);
        }
        let ghost old_apps = self.apps();
        let found = self.find_app(app_name);
        let mut usage = Vec::new();
        std::mem::swap(&mut usage, &mut self.app_usage);
        proof {
            assert(usage@.map_values(|u: AppUsage| u@) == old_apps);
        }
        let ghost new_idx: int;
        match found {
            Some(i) => {
                proof {
                    assert(spec_app_index(old_apps, app_name@) == Some(i as int)) by {
                        let c = choose|k: int| 0 <= k < old_apps.len() && old_apps[k].0 == app_name@;
                        assert(c == i);
                    }
                }
                let old_count = usage[i].count;
                let entry = AppUsage { name: String::from_str(app_name), count: old_count + 1 };
                usage.set(i, entry);
                proof {
                    new_idx = i as int;
                }
            },
            None => {
                usage.push(AppUsage { name: String::from_str(app_name), count: 1 });
                proof {
                    new_idx = old_apps.len() as int;
                }
            },
        }
        let ghost new_apps = usage@.map_values(|u: AppUsage| u@);
        proof {
            assert(new_apps =~= spec_record_app(old_apps, app_name@));
            assert(new_apps[new_idx].0 == app_name@);
            assert(spec_distinct_names(new_apps));
            assert(spec_app_index(new_apps, app_name@) == Some(new_idx)) by {
                let c = choose|k: int| 0 <= k < new_apps.len() && new_apps[k].0 == app_name@;
                assert(c == new_idx);
            }
        }
        self.app_usage = usage;
        self.suggestions_shown = self.suggestions_shown + 1;
    }

    /// Records an accepted suggestion.
    pub fn record_suggestion_accepted(&mut self)
        requires
            old(self).accepted() < u32::MAX,
        ensures
            final(self).accepted() == old(self).accepted() + 1,
            final(self).shown() == old(self).shown(),
            final(self).apps() == old(self).apps(),
    {
        proof {
            use_type_invariant(&*self);
        }
        self.suggestions_accepted = self.suggestions_accepted + 1;
    }

    /// Starts a new day: every counter back to zero.
    pub fn reset_daily(&mut self)
        ensures
            final(self).shown() == 0,
            final(self).accepted() == 0,
            final(self).apps() == Seq::<(Seq<char>, u32)>::empty(),
    {
        self.app_usage = Vec::new();
        assert(self.apps() =~= Seq::<(Seq<char>, u32)>::empty());
        self.suggestions_shown = 0;
        self.suggestions_accepted = 0;
        assert(self.apps() =~= Seq::<(Seq<char>, u32)>::empty());
    }

    /// The applications with the most suggestions (up to three).
    fn top_apps(&self) -> (top: Vec<AppUsage>)
        ensures
            spec_is_top_list(self.apps(), top@.map_values(|u: AppUsage| u@)),
    {
        let ghost apps = self.apps();
        let n = self.app_usage.len();
        let limit: usize = if n < TOP_APPS { n } else { TOP_APPS };
        let mut chosen: Vec<usize> = Vec::new();
        let mut top: Vec<AppUsage> = Vec::new();
        while chosen.len() < limit
            invariant
                n == apps.len(),
                apps == self.apps(),
                limit == if n < TOP_APPS { n } else { TOP_APPS },
                chosen@.len() == top@.len(),
                chosen@.len() <= limit,
                forall|k: int| 0 <= k < chosen@.len() ==> (#[trigger] chosen@[k]) < n && top@[k]@ == apps[chosen@[k] as int],
                forall|k: int, l: int| 0 <= k < l < chosen@.len() ==> chosen@[k] != chosen@[l],
                forall|k: int, j: int| #![trigger apps[j], top@[k]]
                    0 <= k < chosen@.len() && 0 <= j < n && !chosen@.contains(j as usize) ==> apps[j].1 <= top@[k].count,
                forall|k: int, l: int| 0 <= k < l < chosen@.len() ==> top@[k].count >= top@[l].count,
            decreases limit - chosen@.len(),
        {
            // Find the most used application not yet chosen.
            let mut best: Option<usize> = None;
            let mut j: usize = 0;
            while j < n
                invariant
                    n == apps.len(),
                    apps == self.apps(),
                    0 <= j <= n,
                    match best {
                        Some(b) => b < j && !chosen@.contains(b) && forall|m: usize| m < j && !#[trigger] chosen@.contains(m) ==> apps[m as int].1 <= apps[b as int].1,
                        None => forall|m: usize| m < j ==> #[trigger] chosen@.contains(m),
                    },
                decreases n - j,
            {
                let mut taken = false;
                let mut c: usize = 0;
                while c < chosen.len()
                    invariant
                        0 <= c <= chosen@.len(),
                        taken == exists|w: int| 0 <= w < c && chosen@[w] == j,
                    decreases chosen@.len() - c,
                {
                    if chosen[c] == j {
                        taken = true;
                    }
                    c = c + 1;
                }
                if !taken {
                    match best {
                        None => {
                            best = Some(j);
                        },
                        Some(b) => {
                            if self.app_usage[j].count > self.app_usage[b].count {
                                best = Some(j);
                            }
                        },
                    }
                }
                j = j + 1;
            }
            // Fewer chosen than applications: some application remains.
            proof {
                if best is None {
                    assert forall|m: usize| (m as int) < n implies #[trigger] chosen@.contains(m) by {}
                    lemma_distinct_cover(chosen@, n as nat);
                }
            }
            let b = best.unwrap();
            let ghost old_chosen = chosen@;
            let ghost old_top = top@;
            let u = AppUsage { name: self.app_usage[b].name.clone(), count: self.app_usage[b].count };
            top.push(u);
            chosen.push(b);
            proof {
                assert forall|k: int, j2: int| #![trigger apps[j2], top@[k]]
                    0 <= k < chosen@.len() && 0 <= j2 < n && !chosen@.contains(j2 as usize) implies apps[j2].1 <= top@[k].count by {
                    assert(!old_chosen.contains(j2 as usize)) by {
                        if old_chosen.contains(j2 as usize) {
                            let w = choose|w: int| 0 <= w < old_chosen.len() && old_chosen[w] == j2 as usize;
                            assert(chosen@[w] == j2 as usize);
                        }
                    }
                    if k < old_chosen.len() {
                        assert(top@[k] == old_top[k]);
                    }
                }
                assert forall|k: int, l: int| 0 <= k < l < chosen@.len() implies chosen@[k] != chosen@[l] by {
                    if l == old_chosen.len() {
                        assert(old_chosen.contains(chosen@[k]));
                    }
                }
                assert forall|k: int, l: int| 0 <= k < l < chosen@.len() implies top@[k].count >= top@[l].count by {
                    assert(top@[k] == old_top[k]);
                    if l == old_chosen.len() {
                        assert(!old_chosen.contains(b));
                        assert(apps[b as int].1 <= old_top[k].count);
                    } else {
                        assert(top@[l] == old_top[l]);
                    }
                }
            }
        }
        proof {
            let tv = top@.map_values(|u: AppUsage| u@);
            let idx = chosen@.map_values(|c: usize| c as int);
            assert forall|k: int| 0 <= k < idx.len() implies 0 <= #[trigger] idx[k] < apps.len() && tv[k] == apps[idx[k]] by {
                assert(chosen@[k] < n);
            }
            assert forall|k: int, j: int| #![trigger apps[j], tv[k]]
                0 <= k < idx.len() && 0 <= j < apps.len() && !idx.contains(j) implies apps[j].1 <= tv[k].1 by {
                if chosen@.contains(j as usize) {
                    let w = choose|w: int| 0 <= w < chosen@.len() && chosen@[w] == j as usize;
                    assert(idx[w] == j);
                }
            }
            assert forall|k: int, l: int| 0 <= k < l < idx.len() implies idx[k] != idx[l] by {
                assert(chosen@[k] != chosen@[l]);
            }
            assert forall|k: int, l: int| 0 <= k < l < tv.len() implies tv[k].1 >= tv[l].1 by {
                assert(top@[k].count >= top@[l].count);
            }
            assert(spec_top_positions(apps, tv, idx));
        }
        top
    }

    /// The day's digest: counts, minutes saved (2 per accepted suggestion),
    /// the top three applications and the highlights.
    pub fn get_digest(&self) -> (d: DigestStats)
        requires
            self.accepted() <= u32::MAX / 2,
        ensures
            d.suggestions_shown == self.shown(),
            d.suggestions_accepted == self.accepted(),
            d.time_saved_minutes == self.accepted() * 2,
            spec_is_top_list(self.apps(), d.top_apps@.map_values(|u: AppUsage| u@)),
            spec_distinct_names(self.apps()),
            spec_distinct_names(d.top_apps@.map_values(|u: AppUsage| u@)),
            d.highlights@.map_values(|s: String| s@) == spec_highlights(self.shown(), self.accepted()),
    {
        proof {
            use_type_invariant(self);
        }
        let shown = self.suggestions_shown;
        let accepted = self.suggestions_accepted;
        let time_saved_minutes = accepted * MINUTES_PER_ACCEPTED;
        let top_apps = self.top_apps();
        let mut highlights: Vec<String> = Vec::new();
        if accepted > 0 {
            let rate = acceptance_rate(shown, accepted);
            let n = decimal_string(rate as u64);
            highlights.push(join3("Tu as accepté ", n.as_str(), "% des suggestions 🎯"));
        }
        if time_saved_minutes >= 10 {
            let n = decimal_string(time_saved_minutes as u64);
            highlights.push(String::from_str(n.as_str()).concat(" min gagnées sur du debugging"));
        }
        if accepted >= 5 {
            highlights.push(String::from_str("Ton meilleur jour cette semaine 🚀"));
        }
        assert(highlights@.map_values(|s: String| s@) =~= spec_highlights(shown, accepted));
        proof {
            lemma_top_list_names_distinct(self.apps(), top_apps@.map_values(|u: AppUsage| u@));
        }
        DigestStats {
            suggestions_shown: shown,
            suggestions_accepted: accepted,
            time_saved_minutes,
            top_apps,
            highlights,
        }
    }
}

/// Acceptance rate in percent (rounded down, saturating).
pub fn acceptance_rate(shown: u32, accepted: u32) -> (r: u32)
    ensures
        r == spec_acceptance_rate(shown, accepted),
{
    if shown == 0 {
        u32::MAX
    } else {
        let q: u64 = (accepted as u64) * 100 / (shown as u64);
        if q > u32::MAX as u64 {
            u32::MAX
        } else {
            q as u32
        }
    }
}

/// A duplicate-free sequence of indices below `n` that covers every index
/// below `n` has at least `n` elements.
proof fn lemma_distinct_cover(s: Seq<usize>, n: nat)
    requires
        forall|k: int, l: int| 0 <= k < l < s.len() ==> s[k] != s[l],
        forall|m: usize| (m as int) < n ==> #[trigger] s.contains(m),
        n <= usize::MAX + 1,
    ensures
        s.len() >= n,
{
    broadcast use vstd::seq_lib::seq_to_set_is_finite;
    let covered = Set::new(|m: usize| (m as int) < n);
    let elems = s.to_set();
    assert(covered.subset_of(elems)) by {
        assert forall|m: usize| covered.contains(m) implies elems.contains(m) by {
        }
    }
    lemma_usize_range_len(n);
    vstd::set_lib::lemma_len_subset(covered, elems);
    assert(s.no_duplicates()) by {
        assert forall|i: int, j: int| 0 <= i < s.len() && 0 <= j < s.len() && i != j implies s[i] != s[j] by {
            if i < j {
            } else {
            }
        }
    }
    s.unique_seq_to_set();
}

/// The set of `usize` values below `n` has `n` elements.
proof fn lemma_usize_range_len(n: nat)
    requires
        n <= usize::MAX + 1,
    ensures
        Set::new(|m: usize| (m as int) < n).finite(),
        Set::new(|m: usize| (m as int) < n).len() == n,
    decreases n,
{
    let s = Set::new(|m: usize| (m as int) < n);
    if n == 0 {
        assert(s =~= Set::<usize>::empty());
    } else {
        lemma_usize_range_len((n - 1) as nat);
        let p = Set::new(|m: usize| (m as int) < n - 1);
        assert(s =~= p.insert((n - 1) as usize));
    }
}

} // verus!

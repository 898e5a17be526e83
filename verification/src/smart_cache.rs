//! Adaptive capture cache: remembers the hashes of recent screens and adapts
//! the capture interval to the user's activity (slower on identical screens,
//! faster on frequent changes).
use vstd::prelude::*;
use std::collections::VecDeque;
use crate::clock::unix_time_millis;

verus! {

broadcast use vstd::std_specs::vecdeque::group_vec_dequeue_axioms;

/// Number of hashes remembered.
pub const MAX_HISTORY: usize = 10;

/// Consecutive identical (or changed) screens before the interval adapts.
pub const REPEAT_THRESHOLD: usize = 3;

/// Age (in milliseconds) after which a remembered hash is forgotten.
pub const MAX_HASH_AGE_MS: u64 = 300_000;

/// Statistics of the cache.
#[derive(Debug, Clone, Copy, PartialEq, Eq, Structural)]
pub struct CacheStats {
    pub history_size: usize,
    pub current_interval_secs: u64,
    pub change_count: usize,
    pub identical_count: usize,
}

/// Whether `hash` is among the remembered (hash, time) pairs.
pub open spec fn spec_seen(history: Seq<(u64, u64)>, hash: u64) -> bool {
    exists|i: int| 0 <= i < history.len() && (#[trigger] history[i]).0 == hash
}

/// The interval after an increase: doubled, capped at `max`.
pub open spec fn spec_increase(cur: u64, max: u64) -> u64 {
    if cur * 2 <= max { (cur * 2) as u64 } else { max }
}

/// The interval after a decrease: halved, floored at `min`.
pub open spec fn spec_decrease(cur: u64, min: u64) -> u64 {
    if cur / 2 >= min { (cur / 2) as u64 } else { min }
}

/// The history after remembering a new hash: appended, oldest dropped
/// beyond `MAX_HISTORY` entries.
pub open spec fn spec_remember(history: Seq<(u64, u64)>, hash: u64, now: u64) -> Seq<(u64, u64)> {
    let h = history.push((hash, now));
    if h.len() > MAX_HISTORY { h.drop_first() } else { h }
}

/// The entries of `history` younger than `MAX_HASH_AGE_MS` at time `now`.
pub open spec fn spec_fresh(history: Seq<(u64, u64)>, now: u64) -> Seq<(u64, u64)> {
    history.filter(|e: (u64, u64)| spec_is_fresh(e.1, now))
}

/// A timestamp is fresh when less than `MAX_HASH_AGE_MS` has passed (a
/// timestamp in the future has an age of zero).
pub open spec fn spec_is_fresh(ts: u64, now: u64) -> bool {
    now < ts || now - ts < MAX_HASH_AGE_MS
}

/// Smart cache that adapts the capture interval to the activity.
pub struct SmartCache {
    last_hashes: VecDeque<(u64, u64)>,
    min_interval_secs: u64,
    max_interval_secs: u64,
    current_interval_secs: u64,
    change_count: usize,
    identical_count: usize,
}

/// Recording the hash of the screen at `now_ms` (see `SmartCache::should_analyze_at`).
pub open spec fn spec_analysis_step(old: SmartCache, new: SmartCache, hash: u64, now_ms: u64, analyze: bool) -> bool {
    &&& analyze == !spec_seen(old.history(), hash)
    &&& new.min_interval() == old.min_interval()
    &&& new.max_interval() == old.max_interval()
    &&& new.bounded()
    &&& !analyze ==> {
        &&& new.history() == old.history()
        &&& new.identicals() == old.identicals() + 1
        &&& new.changes() == 0
        &&& new.interval() == if old.identicals() + 1 >= REPEAT_THRESHOLD {
            spec_increase(old.interval(), old.max_interval())
        } else {
            old.interval()
        }
    }
    &&& analyze ==> {
        let changes = if old.history().len() > 0 { old.changes() + 1 } else { old.changes() as int };
        &&& new.history() == spec_remember(old.history(), hash, now_ms)
        &&& new.changes() == changes
        &&& new.identicals() == 0
        &&& new.interval() == if changes >= REPEAT_THRESHOLD {
            spec_decrease(old.interval(), old.min_interval())
        } else {
            old.interval()
        }
    }
}

/// Forgetting the old hashes at `now_ms` (see `SmartCache::cleanup_old_at`).
pub open spec fn spec_cleaned_at(old: SmartCache, new: SmartCache, now_ms: u64) -> bool {
    &&& new.history() == spec_fresh(old.history(), now_ms)
    &&& new.interval() == old.interval()
    &&& new.min_interval() == old.min_interval()
    &&& new.max_interval() == old.max_interval()
    &&& new.changes() == old.changes()
    &&& new.identicals() == old.identicals()
}

impl SmartCache {
    #[verifier::type_invariant]
    spec fn inv(self) -> bool {
        &&& self.last_hashes@.len() <= MAX_HISTORY
    }

    /// The remembered (hash, time in ms) pairs, oldest first.
    pub closed spec fn history(&self) -> Seq<(u64, u64)> {
        self.last_hashes@
    }

    pub closed spec fn interval(&self) -> u64 {
        self.current_interval_secs
    }

    pub closed spec fn min_interval(&self) -> u64 {
        self.min_interval_secs
    }

    pub closed spec fn max_interval(&self) -> u64 {
        self.max_interval_secs
    }

    pub closed spec fn changes(&self) -> usize {
        self.change_count
    }

    pub closed spec fn identicals(&self) -> usize {
        self.identical_count
    }

    /// Bounds every cache keeps.
    pub open spec fn bounded(&self) -> bool {
        &&& self.history().len() <= MAX_HISTORY
    }

    /// Creates a cache with an initial, a minimum and a maximum interval (in
    /// seconds).
    pub fn new(initial_interval_secs: u64, min_interval_secs: u64, max_interval_secs: u64) -> (c: Self)
        ensures
            c.history() == Seq::<(u64, u64)>::empty(),
            c.interval() == initial_interval_secs,
            c.min_interval() == min_interval_secs,
            c.max_interval() == max_interval_secs,
            c.changes() == 0,
            c.identicals() == 0,
            c.bounded(),
    {
        SmartCache {
            last_hashes: VecDeque::with_capacity(MAX_HISTORY),
            min_interval_secs,
            max_interval_secs,
            current_interval_secs: initial_interval_secs,
            change_count: 0,
            identical_count: 0,
        }
    }

    /// The default cache: 5 s initially, between 2 s and 30 s.
    pub fn default_cache() -> (c: Self)
        ensures
            c.history() == Seq::<(u64, u64)>::empty(),
            c.interval() == 5,
            c.min_interval() == 2,
            c.max_interval() == 30,
            c.changes() == 0,
            c.identicals() == 0,
    {
        Self::new(5, 2, 30)
    }

    /// Whether `hash` is among the remembered hashes.
    fn contains_hash(&self, hash: u64) -> (b: bool)
        ensures
            b == spec_seen(self.history(), hash),
    {
        let mut i: usize = 0;
        while i < self.last_hashes.len()
            invariant
                0 <= i <= self.last_hashes@.len(),
                forall|j: int| 0 <= j < i ==> (#[trigger] self.last_hashes@[j]).0 != hash,
            decreases self.last_hashes@.len() - i,
        {
            if self.last_hashes[i].0 == hash {
                assert(self.last_hashes@[i as int].0 == hash);
                return true;
            }
            i = i + 1;
        }
        false
    }

    /// Doubles the interval, capped at the maximum.
    fn increase_interval(&mut self)
        ensures
            final(self).interval() == spec_increase(old(self).interval(), old(self).max_interval()),
            final(self).history() == old(self).history(),
            final(self).min_interval() == old(self).min_interval(),
            final(self).max_interval() == old(self).max_interval(),
            final(self).changes() == old(self).changes(),
            final(self).identicals() == old(self).identicals(),
    {
        proof {
            use_type_invariant(&*self);
        }
        let new_interval = if self.current_interval_secs <= self.max_interval_secs / 2 {
            self.current_interval_secs * 2
        } else {
            self.max_interval_secs
        };
        if new_interval != self.current_interval_secs {
            self.current_interval_secs = new_interval;
        }
    }

    /// Halves the interval, floored at the minimum.
    fn decrease_interval(&mut self)
        ensures
            final(self).interval() == spec_decrease(old(self).interval(), old(self).min_interval()),
            final(self).history() == old(self).history(),
            final(self).min_interval() == old(self).min_interval(),
            final(self).max_interval() == old(self).max_interval(),
            final(self).changes() == old(self).changes(),
            final(self).identicals() == old(self).identicals(),
    {
        proof {
            use_type_invariant(&*self);
        }
        let halved = self.current_interval_secs / 2;
        let new_interval = if halved >= self.min_interval_secs { halved } else { self.min_interval_secs };
        if new_interval != self.current_interval_secs {
            self.current_interval_secs = new_interval;
        }
    }

    /// Records the hash of a screen seen at time `now_ms` and says whether it
    /// must be analysed: a hash already remembered needs no analysis and
    /// counts as identical (the interval doubles from the third identical
    /// screen on); a new hash is remembered and, when some screen was
    /// remembered before it, counts as a change (the interval halves from the
    /// third change on).
    pub fn should_analyze_at(&mut self, hash: u64, now_ms: u64) -> (analyze: bool)
        requires
            old(self).identicals() < usize::MAX,
            old(self).changes() < usize::MAX,
        ensures
            spec_analysis_step(*old(self), *final(self), hash, now_ms, analyze),
    {
        proof {
            use_type_invariant(&*self);
        }
        let is_repeated = self.contains_hash(hash);
        if is_repeated {
            self.identical_count = self.identical_count + 1;
            self.change_count = 0;
            if self.identical_count >= REPEAT_THRESHOLD {
                self.increase_interval();
            }
            false
        } else {
            if self.last_hashes.len() > 0 {
                self.change_count = self.change_count + 1;
            }
            self.identical_count = 0;
            if self.change_count >= REPEAT_THRESHOLD {
                self.decrease_interval();
            }
            let ghost before = self.last_hashes@;
            let mut hashes = VecDeque::new();
            std::mem::swap(&mut hashes, &mut self.last_hashes);
            hashes.push_back((hash, now_ms));
            if hashes.len() > MAX_HISTORY {
                hashes.pop_front();
            }
            assert(hashes@ =~= spec_remember(before, hash, now_ms));
            self.last_hashes = hashes;
            true
        }
    }

    /// Records the hash of the current screen, reading the clock.
    pub fn should_analyze(&mut self, hash: u64) -> (analyze: bool)
        requires
            old(self).identicals() < usize::MAX,
            old(self).changes() < usize::MAX,
        ensures
            exists|now_ms: u64| #[trigger] spec_analysis_step(*old(self), *final(self), hash, now_ms, analyze),
            analyze ==> spec_seen(final(self).history(), hash),
    {
        proof {
            use_type_invariant(&*self);
        }
        let ghost before = self.history();
        let now = unix_time_millis();
        let r = self.should_analyze_at(hash, now);
        proof {
            lemma_remembered_after_analysis(before, hash, now);
        }
        r
    }

    /// The current adaptive interval, in seconds.
    pub fn adaptive_interval_secs(&self) -> (s: u64)
        ensures
            s == self.interval(),
    {
        self.current_interval_secs
    }

    /// The current adaptive interval.
    pub fn adaptive_interval(&self) -> (d: std::time::Duration)
        ensures
            d == spec_duration_secs(self.interval()),
    {
        duration_from_secs(self.current_interval_secs)
    }

    /// The current interval in seconds.
    pub fn current_interval_secs(&self) -> (s: u64)
        ensures
            s == self.interval(),
    {
        self.current_interval_secs
    }

    /// The minimum interval in seconds.
    pub fn min_interval_secs(&self) -> (s: u64)
        ensures
            s == self.min_interval(),
    {
        self.min_interval_secs
    }

    /// The maximum interval in seconds.
    pub fn max_interval_secs(&self) -> (s: u64)
        ensures
            s == self.max_interval(),
    {
        self.max_interval_secs
    }

    /// Number of remembered hashes.
    pub fn history_len(&self) -> (n: usize)
        ensures
            n == self.history().len(),
    {
        self.last_hashes.len()
    }

    /// Consecutive changed screens.
    pub fn change_count(&self) -> (n: usize)
        ensures
            n == self.changes(),
    {
        self.change_count
    }

    /// Consecutive identical screens.
    pub fn identical_count(&self) -> (n: usize)
        ensures
            n == self.identicals(),
    {
        self.identical_count
    }

    /// Forgets the remembered hashes and the counters; keeps the interval.
    pub fn reset(&mut self)
        ensures
            final(self).history() == Seq::<(u64, u64)>::empty(),
            final(self).changes() == 0,
            final(self).identicals() == 0,
            final(self).interval() == old(self).interval(),
            final(self).min_interval() == old(self).min_interval(),
            final(self).max_interval() == old(self).max_interval(),
    {
        proof {
            use_type_invariant(&*self);
        }
        self.last_hashes = VecDeque::new();
        self.change_count = 0;
        self.identical_count = 0;
    }

    /// Statistics of the cache.
    pub fn stats(&self) -> (s: CacheStats)
        ensures
            s.history_size == self.history().len(),
            s.current_interval_secs == self.interval(),
            s.change_count == self.changes(),
            s.identical_count == self.identicals(),
    {
        CacheStats {
            history_size: self.last_hashes.len(),
            current_interval_secs: self.current_interval_secs,
            change_count: self.change_count,
            identical_count: self.identical_count,
        }
    }

    /// Forgets the hashes older than five minutes at time `now_ms`.
    pub fn cleanup_old_at(&mut self, now_ms: u64)
        ensures
            spec_cleaned_at(*old(self), *final(self), now_ms),
    {
        proof {
            use_type_invariant(&*self);
        }
        let ghost old_h = self.last_hashes@;
        let mut kept: VecDeque<(u64, u64)> = VecDeque::new();
        let mut i: usize = 0;
        while i < self.last_hashes.len()
            invariant
                0 <= i <= self.last_hashes@.len(),
                self.last_hashes@ == old_h,
                kept@ == spec_fresh(old_h.take(i as int), now_ms),
            decreases self.last_hashes@.len() - i,
        {
            let e = self.last_hashes[i];
            proof {
                assert(old_h.take(i + 1) =~= old_h.take(i as int).push(e));
                old_h.take(i as int).lemma_filter_push(e, |e: (u64, u64)| spec_is_fresh(e.1, now_ms));
            }
            if now_ms < e.1 || now_ms - e.1 < MAX_HASH_AGE_MS {
                kept.push_back(e);
            }
            i = i + 1;
        }
        proof {
            assert(old_h.take(old_h.len() as int) =~= old_h);
            old_h.lemma_filter_len(|e: (u64, u64)| spec_is_fresh(e.1, now_ms));
        }
        self.last_hashes = kept;
    }

    /// Forgets the hashes older than five minutes, reading the clock.
    pub fn cleanup_old(&mut self)
        ensures
            exists|now_ms: u64| #[trigger] spec_cleaned_at(*old(self), *final(self), now_ms),
            final(self).history().len() <= old(self).history().len(),
    {
        let now = unix_time_millis();
        self.cleanup_old_at(now);
        proof {
            old(self).history().lemma_filter_len(|e: (u64, u64)| spec_is_fresh(e.1, now));
        }
    }
}

/// The `Duration` of `secs` whole seconds, as `Duration::from_secs` makes it.
pub uninterp spec fn spec_duration_secs(secs: u64) -> std::time::Duration;

/// A `Duration` of whole seconds. Trusted: `Duration::from_secs`, whose
/// result is named `spec_duration_secs` of the seconds (the `Duration`
/// itself is opaque here).
#[verifier::external_body]
fn duration_from_secs(secs: u64) -> (d: std::time::Duration)
    ensures
        d == spec_duration_secs(secs),
{
    std::time::Duration::from_secs(secs)
}

/// A hash recorded for analysis is remembered right after, so the same hash
/// presented again needs no analysis.
pub proof fn lemma_remembered_after_analysis(history: Seq<(u64, u64)>, hash: u64, now: u64)
    requires
        history.len() <= MAX_HISTORY,
    ensures
        spec_seen(spec_remember(history, hash, now), hash),
        spec_remember(history, hash, now).len() <= MAX_HISTORY,
{
    let h = spec_remember(history, hash, now);
    assert(h[h.len() - 1] == (hash, now));
}

/// The adaptive interval never leaves `[min, max]` once inside it.
pub proof fn lemma_interval_stays_in_range(cur: u64, min: u64, max: u64)
    requires
        min <= cur <= max,
    ensures
        min <= spec_increase(cur, max) <= max,
        min <= spec_decrease(cur, min) <= max,
{
}

/// Each screen recorded keeps the interval within `[min, max]` (once it is
/// there) and the history within its size.
pub proof fn lemma_analysis_keeps_bounds(old: SmartCache, new: SmartCache, hash: u64, now_ms: u64, analyze: bool)
    requires
        old.min_interval() <= old.interval() <= old.max_interval(),
        spec_analysis_step(old, new, hash, now_ms, analyze),
    ensures
        new.min_interval() <= new.interval() <= new.max_interval(),
        new.history().len() <= MAX_HISTORY,
{
    lemma_interval_stays_in_range(old.interval(), old.min_interval(), old.max_interval());
}

} // verus!

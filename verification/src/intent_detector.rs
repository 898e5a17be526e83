//! The intent detector's decisions: a recently detected intent is served
//! from an LRU cache for a time that grows with its confidence; otherwise the
//! caller asks the language model and hands the answer back, or falls back
//! on the heuristics. Confidences are whole percents; times are milliseconds.
use vstd::prelude::*;
use crate::clustering::manager::{spec_has_key, spec_key_index, spec_keys_distinct, spec_lru_put};
use crate::intent::{heuristic_intent_detection, spec_heuristic_intent, IntentType};
use crate::text::join2;

verus! {

/// A detected intent.
#[derive(Debug, Clone)]
pub struct Intent {
    pub intent_type: IntentType,
    /// From 0 to 100.
    pub confidence_percent: u32,
    pub reason: String,
    pub detected_at_ms: u64,
}

/// The values an intent holds.
pub struct IntentView {
    pub intent_type: IntentType,
    pub confidence_percent: u32,
    pub reason: Seq<char>,
    pub detected_at_ms: u64,
}

impl View for Intent {
    type V = IntentView;

    open spec fn view(&self) -> IntentView {
        IntentView {
            intent_type: self.intent_type,
            confidence_percent: self.confidence_percent,
            reason: self.reason@,
            detected_at_ms: self.detected_at_ms,
        }
    }
}

impl Intent {
    /// A copy of the intent.
    pub fn copy(&self) -> (c: Intent)
        ensures
            c@ == self@,
    {
        Intent {
            intent_type: self.intent_type,
            confidence_percent: self.confidence_percent,
            reason: self.reason.clone(),
            detected_at_ms: self.detected_at_ms,
        }
    }
}

/// An intent in the cache, with when it was stored.
#[derive(Debug, Clone)]
pub struct CachedIntent {
    pub intent: Intent,
    pub stored_at_ms: u64,
    pub cache_key: String,
}

/// The values a cached intent holds.
pub struct CachedIntentView {
    pub intent: IntentView,
    pub stored_at_ms: u64,
    pub cache_key: Seq<char>,
}

impl View for CachedIntent {
    type V = CachedIntentView;

    open spec fn view(&self) -> CachedIntentView {
        CachedIntentView { intent: self.intent@, stored_at_ms: self.stored_at_ms, cache_key: self.cache_key@ }
    }
}

impl CachedIntent {
    /// A copy of the cached intent.
    pub fn copy(&self) -> (c: CachedIntent)
        ensures
            c@ == self@,
    {
        CachedIntent { intent: self.intent.copy(), stored_at_ms: self.stored_at_ms, cache_key: self.cache_key.clone() }
    }
}

/// How long an intent stays in the cache: ten minutes from a confidence of
/// 90, five from 70, two below.
pub open spec fn spec_cache_ttl_ms(confidence_percent: u32) -> u64 {
    if confidence_percent >= 90 {
        600_000
    } else if confidence_percent >= 70 {
        300_000
    } else {
        120_000
    }
}

/// How long an intent stays in the cache (see `spec_cache_ttl_ms`).
pub fn get_cache_ttl_ms(intent: &Intent) -> (ttl: u64)
    ensures
        ttl == spec_cache_ttl_ms(intent.confidence_percent),
{
    if intent.confidence_percent >= 90 {
        600_000
    } else if intent.confidence_percent >= 70 {
        300_000
    } else {
        120_000
    }
}

/// A cached intent may be served at `now`: stored no later than `now`, and
/// younger than its time to live.
pub open spec fn spec_still_fresh(c: CachedIntentView, now_ms: u64) -> bool {
    c.stored_at_ms <= now_ms && now_ms - c.stored_at_ms < spec_cache_ttl_ms(c.intent.confidence_percent)
}

/// The number of intents the cache keeps.
pub const INTENT_CACHE_CAPACITY: usize = 500;

/// The confidence (percent) from which an intent is acted upon.
pub const CONFIDENCE_THRESHOLD_PERCENT: u32 = 50;

/// The confidence (percent) given to a guess of the heuristics.
pub const FALLBACK_CONFIDENCE_PERCENT: u32 = 30;

// ---------------------------------------------------------------- the LRU cache of intents

/// What an LRU cache of intents holds: its (key, intent) entries, most
/// recently used first.
pub uninterp spec fn intent_cache_entries(cache: lru::LruCache<String, CachedIntent>) -> Seq<(Seq<char>, CachedIntentView)>;

/// The capacity an LRU cache of intents was made with.
pub uninterp spec fn intent_cache_capacity(cache: lru::LruCache<String, CachedIntent>) -> nat;

/// The entries once the key's entry, if any, is made the most recently used.
pub open spec fn spec_promote<V>(e: Seq<(Seq<char>, V)>, k: Seq<char>) -> Seq<(Seq<char>, V)> {
    if spec_has_key(e, k) {
        seq![e[spec_key_index(e, k)]] + e.remove(spec_key_index(e, k))
    } else {
        e
    }
}

/// Trusted: `LruCache::new`; an empty cache of the given capacity.
#[verifier::external_body]
fn intent_lru_new(cap: usize) -> (cache: lru::LruCache<String, CachedIntent>)
    requires
        cap > 0,
    ensures
        intent_cache_entries(cache) == Seq::<(Seq<char>, CachedIntentView)>::empty(),
        intent_cache_capacity(cache) == cap,
{
    lru::LruCache::new(std::num::NonZeroUsize::new(cap).unwrap())
}

/// Trusted: `LruCache::get`; the intent with the key, whose entry becomes
/// the most recently used.
#[verifier::external_body]
fn intent_lru_get(cache: &mut lru::LruCache<String, CachedIntent>, key: &str) -> (r: Option<CachedIntent>)
    requires
        spec_keys_distinct(intent_cache_entries(*old(cache))),
    ensures
        intent_cache_capacity(*final(cache)) == intent_cache_capacity(*old(cache)),
        intent_cache_entries(*final(cache)) == spec_promote(intent_cache_entries(*old(cache)), key@),
        r is None <==> !spec_has_key(intent_cache_entries(*old(cache)), key@),
        r matches Some(c) ==> c@ == intent_cache_entries(*old(cache))[spec_key_index(intent_cache_entries(*old(cache)), key@)].1,
{
    cache.get(key).map(|c| c.copy())
}

/// Trusted: `LruCache::put` (see `spec_lru_put`).
#[verifier::external_body]
fn intent_lru_put(cache: &mut lru::LruCache<String, CachedIntent>, key: String, value: CachedIntent)
    requires
        spec_keys_distinct(intent_cache_entries(*old(cache))),
    ensures
        intent_cache_entries(*final(cache)) == spec_lru_put(intent_cache_entries(*old(cache)), intent_cache_capacity(*old(cache)), key@, value@),
        intent_cache_capacity(*final(cache)) == intent_cache_capacity(*old(cache)),
{
    cache.put(key, value);
}

/// Trusted: `LruCache::clear`; no entry is left.
#[verifier::external_body]
fn intent_lru_clear(cache: &mut lru::LruCache<String, CachedIntent>)
    ensures
        intent_cache_entries(*final(cache)) == Seq::<(Seq<char>, CachedIntentView)>::empty(),
        intent_cache_capacity(*final(cache)) == intent_cache_capacity(*old(cache)),
{
    cache.clear();
}

/// Trusted: `LruCache::len`.
#[verifier::external_body]
fn intent_lru_len(cache: &lru::LruCache<String, CachedIntent>) -> (n: usize)
    ensures
        n == intent_cache_entries(*cache).len(),
{
    cache.len()
}

// ---------------------------------------------------------------- lemmas on entries

proof fn lemma_remove_distinct<V>(e: Seq<(Seq<char>, V)>, i: int)
    requires
        spec_keys_distinct(e),
        0 <= i < e.len(),
    ensures
        spec_keys_distinct(e.remove(i)),
        !spec_has_key(e.remove(i), e[i].0),
{
    let r = e.remove(i);
    assert forall|a: int, b: int| 0 <= a < r.len() && 0 <= b < r.len() && a != b implies #[trigger] r[a].0 != #[trigger] r[b].0 by {
        let a0 = if a < i { a } else { a + 1 };
        let b0 = if b < i { b } else { b + 1 };
        assert(r[a] == e[a0]);
        assert(r[b] == e[b0]);
    }
    if spec_has_key(r, e[i].0) {
        let a = choose|a: int| 0 <= a < r.len() && #[trigger] r[a].0 == e[i].0;
        let a0 = if a < i { a } else { a + 1 };
        assert(r[a] == e[a0]);
    }
}

proof fn lemma_front_distinct<V>(rest: Seq<(Seq<char>, V)>, k: Seq<char>, v: V)
    requires
        spec_keys_distinct(rest),
        !spec_has_key(rest, k),
    ensures
        spec_keys_distinct(seq![(k, v)] + rest),
{
    let r = seq![(k, v)] + rest;
    assert forall|a: int, b: int| 0 <= a < r.len() && 0 <= b < r.len() && a != b implies #[trigger] r[a].0 != #[trigger] r[b].0 by {
        if a == 0 {
            assert(r[b] == rest[b - 1]);
        } else if b == 0 {
            assert(r[a] == rest[a - 1]);
        } else {
            assert(r[a] == rest[a - 1]);
            assert(r[b] == rest[b - 1]);
        }
    }
}

/// Putting and promoting keep the keys distinct and within the capacity.
pub proof fn lemma_lru_ops_keep_distinct<V>(e: Seq<(Seq<char>, V)>, cap: nat, k: Seq<char>, v: V)
    requires
        spec_keys_distinct(e),
        e.len() <= cap,
        cap > 0,
    ensures
        spec_keys_distinct(spec_lru_put(e, cap, k, v)),
        spec_lru_put(e, cap, k, v).len() <= cap,
        spec_keys_distinct(spec_promote(e, k)),
        spec_promote(e, k).len() == e.len(),
{
    if spec_has_key(e, k) {
        let i = spec_key_index(e, k);
        lemma_remove_distinct(e, i);
        lemma_front_distinct(e.remove(i), k, v);
        lemma_front_distinct(e.remove(i), e[i].0, e[i].1);
        assert(seq![e[i]] =~= seq![(e[i].0, e[i].1)]);
    } else if e.len() == cap {
        let d = e.drop_last();
        assert(spec_keys_distinct(d)) by {
            assert forall|a: int, b: int| 0 <= a < d.len() && 0 <= b < d.len() && a != b implies #[trigger] d[a].0 != #[trigger] d[b].0 by {
                assert(d[a] == e[a]);
                assert(d[b] == e[b]);
            }
        }
        assert(!spec_has_key(d, k)) by {
            if spec_has_key(d, k) {
                let a = choose|a: int| 0 <= a < d.len() && #[trigger] d[a].0 == k;
                assert(d[a] == e[a]);
            }
        }
        lemma_front_distinct(d, k, v);
    } else {
        lemma_front_distinct(e, k, v);
    }
}

// ---------------------------------------------------------------- the detector

/// The detector's counts.
#[derive(Debug, Clone, Copy, PartialEq, Eq, Structural)]
pub struct IntentDetectorStats {
    pub total_requests: u64,
    pub cache_hits: u64,
    pub cache_misses: u64,
    pub llm_calls: u64,
    pub llm_errors: u64,
    pub total_response_time_ms: u64,
}

/// One more, stopping at the largest value.
pub open spec fn spec_inc64(x: u64) -> u64 {
    if x < u64::MAX { (x + 1) as u64 } else { x }
}

fn inc64(x: u64) -> (y: u64)
    ensures
        y == spec_inc64(x),
{
    if x < u64::MAX { x + 1 } else { x }
}

/// Decides, for each detection, whether a cached intent serves, and keeps
/// the language model's answers.
pub struct IntentDetector {
    intent_cache: lru::LruCache<String, CachedIntent>,
    confidence_threshold_percent: u32,
    stats: IntentDetectorStats,
}

impl IntentDetector {
    /// The cache's entries, most recently used first.
    pub closed spec fn entries(&self) -> Seq<(Seq<char>, CachedIntentView)> {
        intent_cache_entries(self.intent_cache)
    }

    pub closed spec fn spec_stats(&self) -> IntentDetectorStats {
        self.stats
    }

    pub closed spec fn threshold(&self) -> u32 {
        self.confidence_threshold_percent
    }

    /// Distinct keys, no more entries than the cache keeps.
    pub closed spec fn wf(&self) -> bool {
        &&& spec_keys_distinct(self.entries())
        &&& intent_cache_capacity(self.intent_cache) == INTENT_CACHE_CAPACITY
        &&& self.entries().len() <= INTENT_CACHE_CAPACITY
    }

    /// An empty cache of 500 intents, a threshold of 50, no counts.
    pub fn new() -> (d: Self)
        ensures
            d.wf(),
            d.entries() == Seq::<(Seq<char>, CachedIntentView)>::empty(),
            d.threshold() == CONFIDENCE_THRESHOLD_PERCENT,
            d.spec_stats() == (IntentDetectorStats {
                total_requests: 0,
                cache_hits: 0,
                cache_misses: 0,
                llm_calls: 0,
                llm_errors: 0,
                total_response_time_ms: 0,
            }),
    {
        IntentDetector {
            intent_cache: intent_lru_new(INTENT_CACHE_CAPACITY),
            confidence_threshold_percent: CONFIDENCE_THRESHOLD_PERCENT,
            stats: IntentDetectorStats {
                total_requests: 0,
                cache_hits: 0,
                cache_misses: 0,
                llm_calls: 0,
                llm_errors: 0,
                total_response_time_ms: 0,
            },
        }
    }

    /// Starts a detection at `now` for the context's key: the key's entry,
    /// if any, becomes the most recently used, and its intent is returned
    /// while it is fresh (a cache hit); otherwise `None` (a miss), and the
    /// caller asks the language model.
    pub fn begin_detection_at(&mut self, cache_key: &str, now_ms: u64) -> (r: Option<Intent>)
        requires
            old(self).wf(),
        ensures
            final(self).wf(),
            final(self).threshold() == old(self).threshold(),
            final(self).entries() == spec_promote(old(self).entries(), cache_key@),
            r is Some <==> spec_has_key(old(self).entries(), cache_key@)
                && spec_still_fresh(old(self).entries()[spec_key_index(old(self).entries(), cache_key@)].1, now_ms),
            r matches Some(i) ==> i@ == old(self).entries()[spec_key_index(old(self).entries(), cache_key@)].1.intent,
            final(self).spec_stats() == (IntentDetectorStats {
                total_requests: spec_inc64(old(self).spec_stats().total_requests),
                cache_hits: if r is Some { spec_inc64(old(self).spec_stats().cache_hits) } else { old(self).spec_stats().cache_hits },
                cache_misses: if r is None { spec_inc64(old(self).spec_stats().cache_misses) } else { old(self).spec_stats().cache_misses },
                ..old(self).spec_stats()
            }),
    {
        self.stats.total_requests = inc64(self.stats.total_requests);
        proof {
            lemma_lru_ops_keep_distinct(self.entries(), INTENT_CACHE_CAPACITY as nat, cache_key@, arbitrary());
        }
        let cached = intent_lru_get(&mut self.intent_cache, cache_key);
        if let Some(c) = cached {
            let ttl = get_cache_ttl_ms(&c.intent);
            if c.stored_at_ms <= now_ms && now_ms - c.stored_at_ms < ttl {
                self.stats.cache_hits = inc64(self.stats.cache_hits);
                return Some(c.intent);
            }
        }
        self.stats.cache_misses = inc64(self.stats.cache_misses);
        None
    }

    /// Counts an answer of the language model that took `elapsed_ms`.
    pub fn record_llm_response(&mut self, elapsed_ms: u64)
        ensures
            final(self).entries() == old(self).entries(),
            final(self).wf() == old(self).wf(),
            final(self).threshold() == old(self).threshold(),
            final(self).spec_stats() == (IntentDetectorStats {
                llm_calls: spec_inc64(old(self).spec_stats().llm_calls),
                total_response_time_ms: if old(self).spec_stats().total_response_time_ms + elapsed_ms <= u64::MAX {
                    (old(self).spec_stats().total_response_time_ms + elapsed_ms) as u64
                } else {
                    u64::MAX
                },
                ..old(self).spec_stats()
            }),
    {
        self.stats.llm_calls = inc64(self.stats.llm_calls);
        self.stats.total_response_time_ms = self.stats.total_response_time_ms.saturating_add(elapsed_ms);
    }

    /// Keeps the language model's intent for the key, stored at `now`, as
    /// the most recently used entry.
    pub fn store_intent_at(&mut self, cache_key: String, intent: Intent, now_ms: u64)
        requires
            old(self).wf(),
        ensures
            final(self).wf(),
            final(self).threshold() == old(self).threshold(),
            final(self).spec_stats() == old(self).spec_stats(),
            final(self).entries() == spec_lru_put(old(self).entries(), INTENT_CACHE_CAPACITY as nat, cache_key@,
                CachedIntentView { intent: intent@, stored_at_ms: now_ms, cache_key: cache_key@ }),
    {
        let cached = CachedIntent { intent: intent, stored_at_ms: now_ms, cache_key: cache_key.clone() };
        proof {
            lemma_lru_ops_keep_distinct(self.entries(), INTENT_CACHE_CAPACITY as nat, cache_key@, cached@);
        }
        intent_lru_put(&mut self.intent_cache, cache_key, cached);
    }

    /// Counts a failed or timed-out call of the language model, and returns
    /// the intent the heuristics guess, with a confidence of 30.
    pub fn fallback_at(&mut self, app_name: &str, window_title: &str, idle_ms: u64, now_ms: u64) -> (i: Intent)
        ensures
            final(self).entries() == old(self).entries(),
            final(self).wf() == old(self).wf(),
            final(self).threshold() == old(self).threshold(),
            final(self).spec_stats() == (IntentDetectorStats {
                llm_errors: spec_inc64(old(self).spec_stats().llm_errors),
                ..old(self).spec_stats()
            }),
            i.intent_type == spec_heuristic_intent(app_name@, window_title@, idle_ms),
            i.confidence_percent == FALLBACK_CONFIDENCE_PERCENT,
            i.reason@ == "Fallback heuristic: "@ + i.intent_type.spec_as_str(),
            i.detected_at_ms == now_ms,
    {
        self.stats.llm_errors = inc64(self.stats.llm_errors);
        let t = heuristic_intent_detection(app_name, window_title, idle_ms);
        let reason = join2("Fallback heuristic: ", t.as_str());
        Intent { intent_type: t, confidence_percent: FALLBACK_CONFIDENCE_PERCENT, reason: reason, detected_at_ms: now_ms }
    }

    /// The intent is confident enough to act upon.
    pub fn should_proceed(&self, intent: &Intent) -> (b: bool)
        ensures
            b == (intent.confidence_percent >= self.threshold()),
    {
        intent.confidence_percent >= self.confidence_threshold_percent
    }

    /// Empties the cache.
    pub fn clear_cache(&mut self)
        requires
            old(self).wf(),
        ensures
            final(self).wf(),
            final(self).entries() == Seq::<(Seq<char>, CachedIntentView)>::empty(),
            final(self).spec_stats() == old(self).spec_stats(),
            final(self).threshold() == old(self).threshold(),
    {
        intent_lru_clear(&mut self.intent_cache);
    }

    /// How many intents the cache holds.
    pub fn get_cache_size(&self) -> (n: usize)
        ensures
            n == self.entries().len(),
    {
        intent_lru_len(&self.intent_cache)
    }

    /// The counts.
    pub fn get_stats(&self) -> (s: IntentDetectorStats)
        ensures
            s == self.spec_stats(),
    {
        self.stats
    }
}


/// An intent stored for a key is served for that key, at any time from its
/// storing until its time to live has passed.
pub proof fn lemma_stored_intent_is_served(e: Seq<(Seq<char>, CachedIntentView)>, k: Seq<char>, v: CachedIntentView, now_ms: u64)
    requires
        spec_keys_distinct(e),
        e.len() <= INTENT_CACHE_CAPACITY,
        v.stored_at_ms <= now_ms,
        now_ms - v.stored_at_ms < spec_cache_ttl_ms(v.intent.confidence_percent),
    ensures
        ({
            let after = spec_lru_put(e, INTENT_CACHE_CAPACITY as nat, k, v);
            &&& spec_has_key(after, k)
            &&& after[spec_key_index(after, k)].1 == v
            &&& spec_still_fresh(after[spec_key_index(after, k)].1, now_ms)
        }),
{
    let after = spec_lru_put(e, INTENT_CACHE_CAPACITY as nat, k, v);
    lemma_lru_ops_keep_distinct(e, INTENT_CACHE_CAPACITY as nat, k, v);
    assert(after[0] == (k, v));
    assert(after[0].0 == k);
    assert(spec_has_key(after, k));
    let i = spec_key_index(after, k);
    assert(i == 0);
}

// ---------------------------------------------------------------- statistics of detections

/// The confidence band an intent falls in.
pub open spec fn spec_confidence_bucket(confidence_percent: u32) -> Seq<char> {
    if confidence_percent >= 90 {
        "0.9-1.0"@
    } else if confidence_percent >= 80 {
        "0.8-0.9"@
    } else if confidence_percent >= 70 {
        "0.7-0.8"@
    } else if confidence_percent >= 60 {
        "0.6-0.7"@
    } else if confidence_percent >= 50 {
        "0.5-0.6"@
    } else {
        "0.0-0.5"@
    }
}

/// The confidence band an intent falls in (see `spec_confidence_bucket`).
pub fn confidence_bucket(confidence_percent: u32) -> (b: &'static str)
    ensures
        b@ == spec_confidence_bucket(confidence_percent),
{
    if confidence_percent >= 90 {
        "0.9-1.0"
    } else if confidence_percent >= 80 {
        "0.8-0.9"
    } else if confidence_percent >= 70 {
        "0.7-0.8"
    } else if confidence_percent >= 60 {
        "0.6-0.7"
    } else if confidence_percent >= 50 {
        "0.5-0.6"
    } else {
        "0.0-0.5"
    }
}

/// The view of a list of named counts.
pub open spec fn spec_counts_view(v: Seq<(String, u64)>) -> Seq<(Seq<char>, u64)> {
    v.map_values(|p: (String, u64)| (p.0@, p.1))
}

/// The counts once `key` is counted once more: its entry grows by one, or a
/// new entry with one goes at the end.
pub open spec fn spec_bump(d: Seq<(Seq<char>, u64)>, key: Seq<char>) -> Seq<(Seq<char>, u64)> {
    if spec_has_key(d, key) {
        let i = spec_key_index(d, key);
        d.update(i, (key, spec_inc64(d[i].1)))
    } else {
        d.push((key, 1u64))
    }
}

fn bump_count(d: &mut Vec<(String, u64)>, key: &str)
    requires
        spec_keys_distinct(spec_counts_view(old(d)@)),
    ensures
        spec_keys_distinct(spec_counts_view(final(d)@)),
        spec_counts_view(final(d)@) == spec_bump(spec_counts_view(old(d)@), key@),
{
    let ghost v = spec_counts_view(d@);
    let mut i: usize = 0;
    while i < d.len()
        invariant
            i <= d@.len(),
            v == spec_counts_view(d@),
            v == spec_counts_view(old(d)@),
            spec_keys_distinct(v),
            forall|k: int| 0 <= k < i ==> (#[trigger] v[k]).0 != key@,
        decreases d@.len() - i,
    {
        if crate::text::str_eq(d[i].0.as_str(), key) {
            proof {
                assert(v[i as int].0 == key@);
                assert(spec_has_key(v, key@));
                let j = spec_key_index(v, key@);
                assert(v[j].0 == key@);
                assert(j == i as int);
            }
            let c = d[i].1;
            let name = d[i].0.clone();
            d.set(i, (name, inc64(c)));
            proof {
                assert(spec_counts_view(d@) =~= v.update(i as int, (key@, spec_inc64(v[i as int].1))));
                let w = spec_counts_view(d@);
                assert forall|a: int, b: int| 0 <= a < w.len() && 0 <= b < w.len() && a != b implies #[trigger] w[a].0 != #[trigger] w[b].0 by {
                    assert(w[a].0 == v[a].0);
                    assert(w[b].0 == v[b].0);
                    assert(v[a].0 != v[b].0);
                }
                assert(spec_key_index(v, key@) == i as int);
                assert(spec_counts_view(d@) == spec_bump(v, key@));
            }
            return;
        }
        i = i + 1;
    }
    proof {
        assert(!spec_has_key(v, key@));
    }
    d.push((key.to_string(), 1));
    proof {
        let w = spec_counts_view(d@);
        assert(w =~= v.push((key@, 1u64)));
        assert forall|a: int, b: int| 0 <= a < w.len() && 0 <= b < w.len() && a != b implies #[trigger] w[a].0 != #[trigger] w[b].0 by {
            if a < v.len() && b < v.len() {
                assert(w[a] == v[a]);
                assert(w[b] == v[b]);
            } else if a < v.len() {
                assert(w[a] == v[a]);
            } else {
                assert(w[b] == v[b]);
            }
        }
    }
}

/// Statistics of detections. Averages are the totals over the counts.
#[derive(Debug, Clone)]
pub struct IntentStats {
    pub total_detections: u64,
    pub cache_hits: u64,
    pub cache_misses: u64,
    pub high_confidence_count: u64,
    pub low_confidence_count: u64,
    /// The sum of the confidences (percent) of the detections.
    pub total_confidence_percent: u64,
    pub total_detection_time_ms: u64,
    /// Detections by intent name, in order of first detection.
    pub intent_distribution: Vec<(String, u64)>,
    /// Detections by confidence band, in order of first detection.
    pub confidence_distribution: Vec<(String, u64)>,
}

/// `a + b`, stopping at the largest value.
pub open spec fn spec_sat_add(a: u64, b: u64) -> u64 {
    if a + b <= u64::MAX { (a + b) as u64 } else { u64::MAX }
}

impl IntentStats {
    /// The named counts have distinct names.
    pub open spec fn wf(&self) -> bool {
        &&& spec_keys_distinct(spec_counts_view(self.intent_distribution@))
        &&& spec_keys_distinct(spec_counts_view(self.confidence_distribution@))
    }

    /// No detection yet.
    pub fn new() -> (s: Self)
        ensures
            s.wf(),
            s.total_detections == 0 && s.cache_hits == 0 && s.cache_misses == 0,
            s.high_confidence_count == 0 && s.low_confidence_count == 0,
            s.total_confidence_percent == 0 && s.total_detection_time_ms == 0,
            s.intent_distribution@.len() == 0 && s.confidence_distribution@.len() == 0,
    {
        IntentStats {
            total_detections: 0,
            cache_hits: 0,
            cache_misses: 0,
            high_confidence_count: 0,
            low_confidence_count: 0,
            total_confidence_percent: 0,
            total_detection_time_ms: 0,
            intent_distribution: Vec::new(),
            confidence_distribution: Vec::new(),
        }
    }

    /// Counts a detection of `intent` that took `duration_ms`: the totals,
    /// high (from 70) or low confidence, its intent and its confidence band.
    pub fn record_detection(&mut self, intent: &Intent, duration_ms: u64)
        requires
            old(self).wf(),
        ensures
            final(self).wf(),
            final(self).total_detections == spec_inc64(old(self).total_detections),
            final(self).total_detection_time_ms == spec_sat_add(old(self).total_detection_time_ms, duration_ms),
            final(self).total_confidence_percent == spec_sat_add(old(self).total_confidence_percent, intent.confidence_percent as u64),
            final(self).high_confidence_count == if intent.confidence_percent >= 70 {
                spec_inc64(old(self).high_confidence_count)
            } else {
                old(self).high_confidence_count
            },
            final(self).low_confidence_count == if intent.confidence_percent < 70 {
                spec_inc64(old(self).low_confidence_count)
            } else {
                old(self).low_confidence_count
            },
            final(self).cache_hits == old(self).cache_hits,
            final(self).cache_misses == old(self).cache_misses,
            spec_counts_view(final(self).intent_distribution@)
                == spec_bump(spec_counts_view(old(self).intent_distribution@), intent.intent_type.spec_as_str()),
            spec_counts_view(final(self).confidence_distribution@)
                == spec_bump(spec_counts_view(old(self).confidence_distribution@), spec_confidence_bucket(intent.confidence_percent)),
    {
        self.total_detections = inc64(self.total_detections);
        self.total_detection_time_ms = self.total_detection_time_ms.saturating_add(duration_ms);
        self.total_confidence_percent = self.total_confidence_percent.saturating_add(intent.confidence_percent as u64);
        if intent.confidence_percent >= 70 {
            self.high_confidence_count = inc64(self.high_confidence_count);
        } else {
            self.low_confidence_count = inc64(self.low_confidence_count);
        }
        bump_count(&mut self.intent_distribution, intent.intent_type.as_str());
        bump_count(&mut self.confidence_distribution, confidence_bucket(intent.confidence_percent));
    }
}

} // verus!

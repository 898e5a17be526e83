//! Adaptive prompting: a time-limited cache of generated prompts and the
//! engine that owns it.
use vstd::prelude::*;
use crate::clock::unix_time_millis;

verus! {

/// Lifetime of a cached prompt, in milliseconds (10 minutes).
pub const PROMPT_TTL_MS: u64 = 600_000;

/// Number of cached prompts above which expired entries are purged on insert.
pub const PROMPT_CACHE_SOFT_LIMIT: usize = 100;

/// A cached prompt: key, prompt, time of storage in ms.
pub struct PromptEntry {
    pub key: String,
    pub prompt: String,
    pub stored_at_ms: u64,
}

impl View for PromptEntry {
    type V = (Seq<char>, Seq<char>, u64);

    open spec fn view(&self) -> (Seq<char>, Seq<char>, u64) {
        (self.key@, self.prompt@, self.stored_at_ms)
    }
}

/// An entry stored at `ts` is still valid at `now` (an entry stored in the
/// future, after the clock went back, counts as expired).
pub open spec fn spec_fresh(ts: u64, now: u64, ttl: u64) -> bool {
    ts <= now && now - ts < ttl
}

/// The entries still valid at `now`, in order.
pub open spec fn spec_purge(entries: Seq<(Seq<char>, Seq<char>, u64)>, now: u64, ttl: u64) -> Seq<(Seq<char>, Seq<char>, u64)> {
    entries.filter(|e: (Seq<char>, Seq<char>, u64)| spec_fresh(e.2, now, ttl))
}

/// Keys of the entries are pairwise distinct.
pub open spec fn spec_distinct_keys(entries: Seq<(Seq<char>, Seq<char>, u64)>) -> bool {
    forall|i: int, j: int| 0 <= i < entries.len() && 0 <= j < entries.len() && i != j ==> entries[i].0 != entries[j].0
}

/// Whether an entry with `key` exists.
pub open spec fn spec_has_key(entries: Seq<(Seq<char>, Seq<char>, u64)>, key: Seq<char>) -> bool {
    exists|i: int| 0 <= i < entries.len() && #[trigger] entries[i].0 == key
}

/// The prompt stored under `key` (meaningful when `spec_has_key` holds).
pub open spec fn spec_prompt_of(entries: Seq<(Seq<char>, Seq<char>, u64)>, key: Seq<char>) -> Seq<char> {
    entries[choose|i: int| 0 <= i < entries.len() && #[trigger] entries[i].0 == key].1
}

/// The entries after storing `prompt` under `key` at `now`: an entry with
/// that key is replaced in place, otherwise the entry is appended.
pub open spec fn spec_upsert(entries: Seq<(Seq<char>, Seq<char>, u64)>, key: Seq<char>, prompt: Seq<char>, now: u64) -> Seq<(Seq<char>, Seq<char>, u64)> {
    if spec_has_key(entries, key) {
        entries.update(choose|i: int| 0 <= i < entries.len() && #[trigger] entries[i].0 == key, (key, prompt, now))
    } else {
        entries.push((key, prompt, now))
    }
}

/// Cache of adaptive prompts with a ten-minute lifetime.
pub struct PromptCache {
    cache: Vec<PromptEntry>,
    ttl_ms: u64,
    hit_count: u64,
    miss_count: u64,
}

/// A lookup of `key` at `now`: expired entries are purged first; a valid
/// entry counts a hit and gives its prompt, otherwise a miss is counted.
pub open spec fn spec_lookup_at(old: PromptCache, new: PromptCache, key: Seq<char>, now: u64, r: Option<String>) -> bool {
    &&& new.entries() == spec_purge(old.entries(), now, old.ttl())
    &&& new.ttl() == old.ttl()
    &&& match r {
        Some(p) => {
            &&& spec_has_key(new.entries(), key)
            &&& p@ == spec_prompt_of(new.entries(), key)
            &&& new.hits() == old.hits() + 1
            &&& new.misses() == old.misses()
        },
        None => {
            &&& !spec_has_key(new.entries(), key)
            &&& new.hits() == old.hits()
            &&& new.misses() == old.misses() + 1
        },
    }
}

/// Storing `prompt` under `key` at `now`: the entry is added or replaced,
/// and once more than 100 entries are held the expired ones are purged.
pub open spec fn spec_store_at(old: PromptCache, new: PromptCache, key: Seq<char>, prompt: Seq<char>, now: u64) -> bool {
    &&& new.entries() == {
        let u = spec_upsert(old.entries(), key, prompt, now);
        if u.len() > PROMPT_CACHE_SOFT_LIMIT { spec_purge(u, now, old.ttl()) } else { u }
    }
    &&& new.ttl() == old.ttl()
    &&& new.hits() == old.hits()
    &&& new.misses() == old.misses()
}

impl PromptCache {
    #[verifier::type_invariant]
    spec fn inv(self) -> bool {
        self.wf()
    }

    /// Every cache holds each key at most once and keeps prompts for ten
    /// minutes.
    pub closed spec fn wf(&self) -> bool {
        &&& spec_distinct_keys(self.entries())
        &&& self.ttl() == PROMPT_TTL_MS
    }

    /// What a well kept cache holds.
    pub proof fn lemma_wf(&self)
        requires
            self.wf(),
        ensures
            spec_distinct_keys(self.entries()),
            self.ttl() == PROMPT_TTL_MS,
    {
    }

    /// The cached (key, prompt, time) entries, in order of first storage.
    pub closed spec fn entries(&self) -> Seq<(Seq<char>, Seq<char>, u64)> {
        self.cache@.map_values(|e: PromptEntry| e@)
    }

    pub closed spec fn ttl(&self) -> u64 {
        self.ttl_ms
    }

    pub closed spec fn hits(&self) -> u64 {
        self.hit_count
    }

    pub closed spec fn misses(&self) -> u64 {
        self.miss_count
    }

    pub fn new() -> (c: Self)
        ensures
            c.entries() == Seq::<(Seq<char>, Seq<char>, u64)>::empty(),
            c.ttl() == PROMPT_TTL_MS,
            c.hits() == 0,
            c.misses() == 0,
            c.wf(),
    {
        let c = PromptCache { cache: Vec::new(), ttl_ms: PROMPT_TTL_MS, hit_count: 0, miss_count: 0 };
        assert(c.entries() =~= Seq::<(Seq<char>, Seq<char>, u64)>::empty());
        c
    }

    /// Removes the entries expired at `now`.
    fn cleanup_at(&mut self, now: u64)
        ensures
            final(self).entries() == spec_purge(old(self).entries(), now, old(self).ttl()),
            final(self).ttl() == old(self).ttl(),
            final(self).hits() == old(self).hits(),
            final(self).misses() == old(self).misses(),
    {
        proof {
            use_type_invariant(&*self);
        }
        let ghost old_entries = self.entries();
        let ttl = self.ttl_ms;
        let mut old_cache = Vec::new();
        std::mem::swap(&mut old_cache, &mut self.cache);
        let ghost src = old_cache@.map_values(|e: PromptEntry| e@);
        assert(src == old_entries);
        let mut kept: Vec<PromptEntry> = Vec::new();
        let mut rest = old_cache;
        let total = rest.len();
        let mut i: usize = 0;
        while rest.len() > 0
            invariant
                i + rest@.len() == total,
                total == src.len(),
                forall|k: int| 0 <= k < rest@.len() ==> (#[trigger] rest@[k])@ == src[i + k],
                kept@.map_values(|e: PromptEntry| e@) == spec_purge(src.take(i as int), now, ttl),
            decreases rest@.len(),
        {
            let ghost old_rest = rest@;
            let e = rest.remove(0);
            let ghost ev = e@;
            proof {
                assert(ev == src[i as int]);
                assert forall|k: int| 0 <= k < rest@.len() implies (#[trigger] rest@[k])@ == src[i + 1 + k] by {
                    assert(rest@[k] == old_rest[k + 1]);
                }
                assert(src.take(i + 1) =~= src.take(i as int).push(ev));
                src.take(i as int).lemma_filter_push(ev, |e: (Seq<char>, Seq<char>, u64)| spec_fresh(e.2, now, ttl));
            }
            let ghost before = kept@.map_values(|e: PromptEntry| e@);
            if e.stored_at_ms <= now && now - e.stored_at_ms < ttl {
                kept.push(e);
                assert(kept@.map_values(|e: PromptEntry| e@) =~= before.push(ev));
            }
            i = i + 1;
        }
        proof {
            assert(src.take(total as int) =~= src);
            let p = spec_purge(src, now, ttl);
            assert(spec_distinct_keys(p)) by {
                lemma_filter_keeps_distinct(src, now, ttl);
            }
        }
        self.cache = kept;
    }

    /// Position of `key` among the entries.
    fn find(&self, key: &str) -> (r: Option<usize>)
        ensures
            match r {
                Some(i) => i < self.entries().len() && self.entries()[i as int].0 == key@,
                None => !spec_has_key(self.entries(), key@),
            },
    {
        let k = String::from_str(key);
        let mut i: usize = 0;
        while i < self.cache.len()
            invariant
                0 <= i <= self.cache@.len(),
                k@ == key@,
                forall|j: int| 0 <= j < i ==> self.entries()[j].0 != key@,
            decreases self.cache@.len() - i,
        {
            if self.cache[i].key == k {
                return Some(i);
            }
            i = i + 1;
        }
        None
    }

    /// Looks a prompt up at time `now`: expired entries are purged first; a
    /// valid entry counts a hit and its prompt is returned, otherwise a miss
    /// is counted.
    pub fn get_at(&mut self, key: &str, now: u64) -> (r: Option<String>)
        requires
            old(self).hits() < u64::MAX,
            old(self).misses() < u64::MAX,
        ensures
            spec_lookup_at(*old(self), *final(self), key@, now, r),
            final(self).wf(),
    {
        self.cleanup_at(now);
        proof {
            use_type_invariant(&*self);
        }
        match self.find(key) {
            Some(i) => {
                let p = self.cache[i].prompt.clone();
                proof {
                    let es = self.entries();
                    let c = choose|j: int| 0 <= j < es.len() && #[trigger] es[j].0 == key@;
                    assert(es[i as int].0 == key@);
                    assert(c == i);
                }
                self.hit_count = self.hit_count + 1;
                Some(p)
            },
            None => {
                self.miss_count = self.miss_count + 1;
                None
            },
        }
    }

    /// Looks a prompt up, reading the clock.
    pub fn get(&mut self, key: &str) -> (r: Option<String>)
        requires
            old(self).hits() < u64::MAX,
            old(self).misses() < u64::MAX,
        ensures
            exists|now: u64| #[trigger] spec_lookup_at(*old(self), *final(self), key@, now, r),
            final(self).wf(),
    {
        let now = unix_time_millis();
        self.get_at(key, now)
    }

    /// Stores a prompt at time `now`; once more than 100 entries are held,
    /// the expired ones are purged.
    pub fn put_at(&mut self, key: &str, prompt: String, now: u64)
        ensures
            spec_store_at(*old(self), *final(self), key@, prompt@, now),
            final(self).wf(),
    {
        proof {
            use_type_invariant(&*self);
        }
        let ghost old_entries = self.entries();
        let found = self.find(key);
        let mut cache = Vec::new();
        std::mem::swap(&mut cache, &mut self.cache);
        assert(cache@.map_values(|e: PromptEntry| e@) == old_entries);
        let entry = PromptEntry { key: String::from_str(key), prompt, stored_at_ms: now };
        match found {
            Some(i) => {
                proof {
                    let c = choose|j: int| 0 <= j < old_entries.len() && #[trigger] old_entries[j].0 == key@;
                    assert(old_entries[i as int].0 == key@);
                    assert(c == i);
                }
                cache.set(i, entry);
            },
            None => {
                cache.push(entry);
            },
        }
        proof {
            let nv = cache@.map_values(|e: PromptEntry| e@);
            assert(nv =~= spec_upsert(old_entries, key@, prompt@, now));
            assert(spec_distinct_keys(nv)) by {
                if found is None {
                    assert forall|a: int, b: int| 0 <= a < nv.len() && 0 <= b < nv.len() && a != b implies nv[a].0 != nv[b].0 by {
                        if a == old_entries.len() {
                            assert(old_entries[b].0 == nv[b].0);
                        }
                        if b == old_entries.len() {
                            assert(old_entries[a].0 == nv[a].0);
                        }
                    }
                }
            }
        }
        self.cache = cache;
        if self.cache.len() > PROMPT_CACHE_SOFT_LIMIT {
            self.cleanup_at(now);
        }
        proof {
            use_type_invariant(&*self);
        }
    }

    /// Stores a prompt, reading the clock.
    pub fn put(&mut self, key: &str, prompt: String)
        ensures
            exists|now: u64| #[trigger] spec_store_at(*old(self), *final(self), key@, prompt@, now),
            final(self).wf(),
    {
        let now = unix_time_millis();
        self.put_at(key, prompt, now);
    }

    /// Empties the cache and its counters.
    pub fn clear(&mut self)
        ensures
            final(self).entries() == Seq::<(Seq<char>, Seq<char>, u64)>::empty(),
            final(self).ttl() == old(self).ttl(),
            final(self).hits() == 0,
            final(self).misses() == 0,
            final(self).wf(),
    {
        proof {
            use_type_invariant(&*self);
        }
        self.cache = Vec::new();
        assert(self.entries() =~= Seq::<(Seq<char>, Seq<char>, u64)>::empty());
        self.hit_count = 0;
        self.miss_count = 0;
    }

    /// Number of cache hits.
    pub fn hit_count(&self) -> (n: u64)
        ensures
            n == self.hits(),
    {
        self.hit_count
    }

    /// Number of cache misses.
    pub fn miss_count(&self) -> (n: u64)
        ensures
            n == self.misses(),
    {
        self.miss_count
    }

    /// Number of cached prompts.
    pub fn len(&self) -> (n: usize)
        ensures
            n == self.entries().len(),
    {
        self.cache.len()
    }
}

/// Filtering keeps keys distinct.
proof fn lemma_filter_keeps_distinct(src: Seq<(Seq<char>, Seq<char>, u64)>, now: u64, ttl: u64)
    requires
        spec_distinct_keys(src),
    ensures
        spec_distinct_keys(spec_purge(src, now, ttl)),
    decreases src.len(),
{
    let f = |e: (Seq<char>, Seq<char>, u64)| spec_fresh(e.2, now, ttl);
    if src.len() > 0 {
        let init = src.drop_last();
        assert(spec_distinct_keys(init));
        lemma_filter_keeps_distinct(init, now, ttl);
        assert(src =~= init.push(src.last()));
        init.lemma_filter_push(src.last(), f);
        let pi = spec_purge(init, now, ttl);
        if f(src.last()) {
            assert forall|k: int| 0 <= k < pi.len() implies pi[k].0 != src.last().0 by {
                assert(pi.contains(pi[k]));
                init.lemma_filter_contains_rev(f, pi[k]);
                let w = choose|w: int| 0 <= w < init.len() && init[w] == pi[k];
                assert(init[w] == src[w]);
            }
            let p = spec_purge(src, now, ttl);
            assert forall|a: int, b: int| 0 <= a < p.len() && 0 <= b < p.len() && a != b implies p[a].0 != p[b].0 by {
                if a < pi.len() && b < pi.len() {
                    assert(p[a] == pi[a] && p[b] == pi[b]);
                } else if a < pi.len() {
                    assert(p[a] == pi[a]);
                } else {
                    assert(p[b] == pi[b]);
                }
            }
        }
    }
}

/// The entry stored by an upsert: the keys stay distinct and the entry
/// `(key, prompt, now)` stands at some position.
proof fn lemma_upsert_holds(entries: Seq<(Seq<char>, Seq<char>, u64)>, key: Seq<char>, prompt: Seq<char>, now: u64) -> (pos: int)
    requires
        spec_distinct_keys(entries),
    ensures
        spec_distinct_keys(spec_upsert(entries, key, prompt, now)),
        0 <= pos < spec_upsert(entries, key, prompt, now).len(),
        spec_upsert(entries, key, prompt, now)[pos] == (key, prompt, now),
{
    let u = spec_upsert(entries, key, prompt, now);
    let pos: int = if spec_has_key(entries, key) {
        choose|i: int| 0 <= i < entries.len() && #[trigger] entries[i].0 == key
    } else {
        entries.len() as int
    };
    assert(u[pos] == (key, prompt, now));
    assert(spec_distinct_keys(u)) by {
        assert forall|a: int, b: int| 0 <= a < u.len() && 0 <= b < u.len() && a != b implies u[a].0 != u[b].0 by {
            if a != pos && b != pos {
                assert(u[a] == entries[a] && u[b] == entries[b]);
            } else if a == pos {
                assert(u[b] == entries[b]);
            } else {
                assert(u[a] == entries[a]);
            }
        }
    }
    pos
}

/// An entry still valid at `now` survives the purge at `now`, and is then
/// the one found under its key.
proof fn lemma_valid_entry_found(entries: Seq<(Seq<char>, Seq<char>, u64)>, i: int, now: u64, ttl: u64) -> (w: int)
    requires
        spec_distinct_keys(entries),
        0 <= i < entries.len(),
        spec_fresh(entries[i].2, now, ttl),
    ensures
        spec_distinct_keys(spec_purge(entries, now, ttl)),
        0 <= w < spec_purge(entries, now, ttl).len(),
        spec_purge(entries, now, ttl)[w] == entries[i],
        spec_has_key(spec_purge(entries, now, ttl), entries[i].0),
        spec_prompt_of(spec_purge(entries, now, ttl), entries[i].0) == entries[i].1,
{
    let f = |e: (Seq<char>, Seq<char>, u64)| spec_fresh(e.2, now, ttl);
    lemma_filter_keeps_distinct(entries, now, ttl);
    let p = spec_purge(entries, now, ttl);
    lemma_filter_contains(entries, f, i);
    let w = choose|w: int| 0 <= w < p.len() && p[w] == entries[i];
    assert(p[w].0 == entries[i].0);
    let c = choose|k: int| 0 <= k < p.len() && #[trigger] p[k].0 == entries[i].0;
    assert(c == w);
    w
}

/// A prompt stored at `now` is found by a lookup at the same time.
pub proof fn lemma_put_then_get(entries: Seq<(Seq<char>, Seq<char>, u64)>, key: Seq<char>, prompt: Seq<char>, now: u64, ttl: u64)
    requires
        spec_distinct_keys(entries),
        ttl > 0,
    ensures
        spec_has_key(spec_purge(spec_upsert(entries, key, prompt, now), now, ttl), key),
        spec_prompt_of(spec_purge(spec_upsert(entries, key, prompt, now), now, ttl), key) == prompt,
{
    let pos = lemma_upsert_holds(entries, key, prompt, now);
    lemma_valid_entry_found(spec_upsert(entries, key, prompt, now), pos, now, ttl);
}

/// The cache holds `prompt` under `key`, stored at `stored_at`.
pub open spec fn spec_holds_prompt(c: PromptCache, key: Seq<char>, prompt: Seq<char>, stored_at: u64) -> bool {
    exists|i: int| 0 <= i < c.entries().len() && #[trigger] c.entries()[i] == (key, prompt, stored_at)
}

/// Storing a prompt keeps the cache well kept, and the cache then holds
/// the prompt under its key (replacing what was stored there before).
pub proof fn lemma_store_holds(before: PromptCache, stored: PromptCache, key: Seq<char>, prompt: Seq<char>, stored_at: u64)
    requires
        before.wf(),
        spec_store_at(before, stored, key, prompt, stored_at),
    ensures
        stored.wf(),
        spec_holds_prompt(stored, key, prompt, stored_at),
{
    let ttl = before.ttl();
    let u = spec_upsert(before.entries(), key, prompt, stored_at);
    let pos = lemma_upsert_holds(before.entries(), key, prompt, stored_at);
    let j: int = if u.len() > PROMPT_CACHE_SOFT_LIMIT {
        lemma_valid_entry_found(u, pos, stored_at, ttl)
    } else {
        pos
    };
    assert(stored.entries()[j] == (key, prompt, stored_at));
}

/// Storing a prompt under another key, while the held prompt is valid,
/// keeps it held.
pub proof fn lemma_other_store_keeps(
    c: PromptCache,
    next: PromptCache,
    other_key: Seq<char>,
    other_prompt: Seq<char>,
    now: u64,
    key: Seq<char>,
    prompt: Seq<char>,
    stored_at: u64,
)
    requires
        c.wf(),
        spec_holds_prompt(c, key, prompt, stored_at),
        other_key != key,
        stored_at <= now,
        now - stored_at < PROMPT_TTL_MS,
        spec_store_at(c, next, other_key, other_prompt, now),
    ensures
        next.wf(),
        spec_holds_prompt(next, key, prompt, stored_at),
{
    let e = c.entries();
    let ttl = c.ttl();
    let i = choose|i: int| 0 <= i < e.len() && #[trigger] e[i] == (key, prompt, stored_at);
    let u = spec_upsert(e, other_key, other_prompt, now);
    lemma_upsert_holds(e, other_key, other_prompt, now);
    assert(u[i] == e[i]) by {
        if spec_has_key(e, other_key) {
            let j = choose|j: int| 0 <= j < e.len() && #[trigger] e[j].0 == other_key;
            assert(j != i);
        }
    }
    let w: int = if u.len() > PROMPT_CACHE_SOFT_LIMIT {
        lemma_valid_entry_found(u, i, now, ttl)
    } else {
        i
    };
    assert(next.entries()[w] == (key, prompt, stored_at));
}

/// A lookup at a time when the held prompt is still valid keeps it held,
/// and a lookup of its key gives it back.
pub proof fn lemma_lookup_keeps(
    c: PromptCache,
    next: PromptCache,
    looked_up: Seq<char>,
    now: u64,
    r: Option<String>,
    key: Seq<char>,
    prompt: Seq<char>,
    stored_at: u64,
)
    requires
        c.wf(),
        spec_holds_prompt(c, key, prompt, stored_at),
        stored_at <= now,
        now - stored_at < PROMPT_TTL_MS,
        spec_lookup_at(c, next, looked_up, now, r),
    ensures
        next.wf(),
        spec_holds_prompt(next, key, prompt, stored_at),
        looked_up == key ==> (r matches Some(p) && p@ == prompt),
{
    let e = c.entries();
    let i = choose|i: int| 0 <= i < e.len() && #[trigger] e[i] == (key, prompt, stored_at);
    let w = lemma_valid_entry_found(e, i, now, c.ttl());
    assert(next.entries()[w] == (key, prompt, stored_at));
}

/// A prompt stored under `key` at `stored_at` in any cache is what a
/// lookup of `key` at a later time `now`, less than ten minutes after, gives
/// back, whatever the cache held before (what was stored earlier under
/// `key` is replaced). Lookups and stores of other keys in between keep it
/// (see `lemma_lookup_keeps` and `lemma_other_store_keeps`).
pub proof fn lemma_stored_prompt_is_found(
    before: PromptCache,
    stored: PromptCache,
    after: PromptCache,
    key: Seq<char>,
    prompt: Seq<char>,
    stored_at: u64,
    now: u64,
    r: Option<String>,
)
    requires
        before.wf(),
        spec_store_at(before, stored, key, prompt, stored_at),
        stored_at <= now,
        now - stored_at < PROMPT_TTL_MS,
        spec_lookup_at(stored, after, key, now, r),
    ensures
        r matches Some(p) && p@ == prompt,
{
    lemma_store_holds(before, stored, key, prompt, stored_at);
    lemma_lookup_keeps(stored, after, key, now, r, key, prompt, stored_at);
}

/// An element satisfying the filter's predicate survives the filter.
proof fn lemma_filter_contains(s: Seq<(Seq<char>, Seq<char>, u64)>, f: spec_fn((Seq<char>, Seq<char>, u64)) -> bool, i: int)
    requires
        0 <= i < s.len(),
        f(s[i]),
    ensures
        exists|w: int| 0 <= w < s.filter(f).len() && s.filter(f)[w] == s[i],
    decreases s.len(),
{
    let init = s.drop_last();
    assert(s =~= init.push(s.last()));
    init.lemma_filter_push(s.last(), f);
    if i == s.len() - 1 {
        let w = s.filter(f).len() - 1;
        assert(s.filter(f)[w] == s[i]);
    } else {
        lemma_filter_contains(init, f, i);
        let w = choose|w: int| 0 <= w < init.filter(f).len() && init.filter(f)[w] == init[i];
        assert(s.filter(f)[w] == s[i]);
    }
}

/// Counts of the prompt cache (the hit rate is hits over requests).
#[derive(Debug, Clone, Copy, PartialEq, Eq, Structural)]
pub struct CacheStats {
    pub hit_count: u64,
    pub miss_count: u64,
    pub total_requests: u64,
}

impl PromptCache {
    /// The counts: hits, misses and their sum (stopping at the largest value).
    pub fn get_stats(&self) -> (s: CacheStats)
        ensures
            s.hit_count == self.hits(),
            s.miss_count == self.misses(),
            s.total_requests == if self.hits() + self.misses() <= u64::MAX { (self.hits() + self.misses()) as u64 } else { u64::MAX },
    {
        let h = self.hit_count();
        let m = self.miss_count();
        CacheStats { hit_count: h, miss_count: m, total_requests: h.saturating_add(m) }
    }
}

/// Builder of adaptive prompts.
pub struct PromptBuilder;

impl PromptBuilder {
    pub fn new() -> (b: Self) {
        PromptBuilder
    }
}

/// Engine producing context-aware prompts, with a prompt cache.
pub struct AdaptivePromptEngine {
    pub builder: PromptBuilder,
    pub cache: PromptCache,
}

/// Key under which a prompt is cached: `cluster:intent:domain`.
pub open spec fn spec_cache_key(cluster_id: Seq<char>, intent: Seq<char>, domain: Seq<char>) -> Seq<char> {
    cluster_id + ":"@ + intent + ":"@ + domain
}

impl AdaptivePromptEngine {
    pub fn new() -> (e: Self)
        ensures
            e.cache.entries() == Seq::<(Seq<char>, Seq<char>, u64)>::empty(),
            e.cache.hits() == 0,
            e.cache.misses() == 0,
    {
        AdaptivePromptEngine { builder: PromptBuilder::new(), cache: PromptCache::new() }
    }

    /// The cache key of a request.
    pub fn cache_key(cluster_id: &str, intent: &str, domain: &str) -> (k: String)
        ensures
            k@ == spec_cache_key(cluster_id@, intent@, domain@),
    {
        String::from_str(cluster_id).concat(":").concat(intent).concat(":").concat(domain)
    }

    /// The counts of the prompt cache.
    pub fn get_cache_stats(&self) -> (s: CacheStats)
        ensures
            s.hit_count == self.cache.hits(),
            s.miss_count == self.cache.misses(),
            s.total_requests == if self.cache.hits() + self.cache.misses() <= u64::MAX {
                (self.cache.hits() + self.cache.misses()) as u64
            } else {
                u64::MAX
            },
    {
        self.cache.get_stats()
    }

    /// Empties the prompt cache.
    pub fn clear_cache(&mut self)
        ensures
            final(self).cache.entries() == Seq::<(Seq<char>, Seq<char>, u64)>::empty(),
            final(self).cache.hits() == 0,
            final(self).cache.misses() == 0,
    {
        self.cache.clear();
    }
}

/// How a generated prompt is phrased.
#[derive(Debug, Clone, Copy, PartialEq, Eq, Structural)]
pub enum PromptStyle {
    Concise,
    SafeConcise,
    Pedagogical,
    Creative,
    SafeCreative,
    Analytical,
    Empathetic,
    Neutral,
}

impl PromptStyle {
    /// The style's name, as `{:?}` prints it.
    pub fn name(&self) -> (s: &'static str)
        ensures
            s@ == match self {
                PromptStyle::Concise => "Concise"@,
                PromptStyle::SafeConcise => "SafeConcise"@,
                PromptStyle::Pedagogical => "Pedagogical"@,
                PromptStyle::Creative => "Creative"@,
                PromptStyle::SafeCreative => "SafeCreative"@,
                PromptStyle::Analytical => "Analytical"@,
                PromptStyle::Empathetic => "Empathetic"@,
                PromptStyle::Neutral => "Neutral"@,
            },
    {
        match self {
            PromptStyle::Concise => "Concise",
            PromptStyle::SafeConcise => "SafeConcise",
            PromptStyle::Pedagogical => "Pedagogical",
            PromptStyle::Creative => "Creative",
            PromptStyle::SafeCreative => "SafeCreative",
            PromptStyle::Analytical => "Analytical",
            PromptStyle::Empathetic => "Empathetic",
            PromptStyle::Neutral => "Neutral",
        }
    }
}

} // verus!

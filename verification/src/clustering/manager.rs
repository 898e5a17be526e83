//! Clusters of similar fingerprints, kept in an LRU cache (most recently
//! used first).
use vstd::prelude::*;
use crate::clock::unix_time_millis;
use crate::clustering::fingerprint::{lemma_similarity_laws, spec_matching_bits, ContextFingerprint, FingerprintGenerator};
use crate::text::join2;

verus! {

/// A group of similar fingerprints.
#[derive(Debug, Clone)]
pub struct Cluster {
    pub id: String,
    pub centroid: u64,
    pub count: usize,
    pub domain: String,
    pub created_at_ms: u64,
    pub last_updated_ms: u64,
    /// Similarities (in sixty-fourths) of the last fingerprints added.
    pub similarity_scores: Vec<u32>,
}

/// The values a cluster holds.
#[verifier::ext_equal]
pub struct ClusterView {
    pub id: Seq<char>,
    pub centroid: u64,
    pub count: usize,
    pub domain: Seq<char>,
    pub created_at_ms: u64,
    pub last_updated_ms: u64,
    pub similarity_scores: Seq<u32>,
}

impl View for Cluster {
    type V = ClusterView;

    open spec fn view(&self) -> ClusterView {
        ClusterView {
            id: self.id@,
            centroid: self.centroid,
            count: self.count,
            domain: self.domain@,
            created_at_ms: self.created_at_ms,
            last_updated_ms: self.last_updated_ms,
            similarity_scores: self.similarity_scores@,
        }
    }
}

impl Cluster {
    /// A copy of the cluster.
    pub fn copy(&self) -> (c: Cluster)
        ensures
            c@ == self@,
    {
        Cluster {
            id: self.id.clone(),
            centroid: self.centroid,
            count: self.count,
            domain: self.domain.clone(),
            created_at_ms: self.created_at_ms,
            last_updated_ms: self.last_updated_ms,
            similarity_scores: self.similarity_scores.clone(),
        }
    }
}

// ---------------------------------------------------------------- the LRU cache

#[verifier::external_type_specification]
#[verifier::external_body]
#[verifier::reject_recursive_types(K)]
#[verifier::reject_recursive_types(V)]
#[verifier::reject_recursive_types(S)]
pub struct ExLruCache<K, V, S>(lru::LruCache<K, V, S>);

#[verifier::external_type_specification]
#[verifier::external_body]
pub struct ExLruDefaultHasher(lru::DefaultHasher);

/// What an LRU cache of clusters holds: its (key, cluster) entries, most
/// recently used first.
pub uninterp spec fn lru_entries(cache: lru::LruCache<String, Cluster>) -> Seq<(Seq<char>, ClusterView)>;

/// The capacity an LRU cache of clusters was made with.
pub uninterp spec fn lru_capacity(cache: lru::LruCache<String, Cluster>) -> nat;

/// No key occurs twice.
pub open spec fn spec_keys_distinct<V>(e: Seq<(Seq<char>, V)>) -> bool {
    forall|i: int, j: int| 0 <= i < e.len() && 0 <= j < e.len() && i != j ==> #[trigger] e[i].0 != #[trigger] e[j].0
}

/// Some entry has the key.
pub open spec fn spec_has_key<V>(e: Seq<(Seq<char>, V)>, k: Seq<char>) -> bool {
    exists|i: int| 0 <= i < e.len() && #[trigger] e[i].0 == k
}

/// Where the key is, when some entry has it.
pub open spec fn spec_key_index<V>(e: Seq<(Seq<char>, V)>, k: Seq<char>) -> int {
    choose|i: int| 0 <= i < e.len() && #[trigger] e[i].0 == k
}

/// Entries after `put(k, v)`: an entry with the key moves to the front with
/// the new value; otherwise the new entry goes to the front, and the least
/// recently used one leaves when the cache is full.
pub open spec fn spec_lru_put<V>(e: Seq<(Seq<char>, V)>, cap: nat, k: Seq<char>, v: V) -> Seq<(Seq<char>, V)> {
    if spec_has_key(e, k) {
        seq![(k, v)] + e.remove(spec_key_index(e, k))
    } else if e.len() == cap {
        seq![(k, v)] + e.drop_last()
    } else {
        seq![(k, v)] + e
    }
}

/// Trusted: `LruCache::new`; an empty cache of the given capacity.
#[verifier::external_body]
fn lru_new(cap: usize) -> (cache: lru::LruCache<String, Cluster>)
    requires
        cap > 0,
    ensures
        lru_entries(cache) == Seq::<(Seq<char>, ClusterView)>::empty(),
        lru_capacity(cache) == cap,
{
    lru::LruCache::new(std::num::NonZeroUsize::new(cap).unwrap())
}

/// Trusted: `LruCache::iter`; the entries, most recently used first, copied
/// out. Does not change the order.
#[verifier::external_body]
fn lru_snapshot(cache: &lru::LruCache<String, Cluster>) -> (v: Vec<(String, Cluster)>)
    ensures
        v@.map_values(|p: (String, Cluster)| (p.0@, p.1@)) == lru_entries(*cache),
{
    cache.iter().map(|(k, c)| (k.clone(), c.copy())).collect()
}

/// Trusted: `LruCache::put` (see `spec_lru_put`).
#[verifier::external_body]
fn lru_put(cache: &mut lru::LruCache<String, Cluster>, key: String, value: Cluster)
    requires
        spec_keys_distinct(lru_entries(*old(cache))),
    ensures
        lru_entries(*final(cache)) == spec_lru_put(lru_entries(*old(cache)), lru_capacity(*old(cache)), key@, value@),
        lru_capacity(*final(cache)) == lru_capacity(*old(cache)),
{
    cache.put(key, value);
}

/// Trusted: `LruCache::pop`; removes the entry with the key and returns its
/// cluster, leaving the order of the others.
#[verifier::external_body]
fn lru_pop(cache: &mut lru::LruCache<String, Cluster>, key: &str) -> (r: Option<Cluster>)
    requires
        spec_keys_distinct(lru_entries(*old(cache))),
    ensures
        lru_capacity(*final(cache)) == lru_capacity(*old(cache)),
        r is None <==> !spec_has_key(lru_entries(*old(cache)), key@),
        r matches Some(c) ==> c@ == lru_entries(*old(cache))[spec_key_index(lru_entries(*old(cache)), key@)].1,
        r matches Some(c) ==> lru_entries(*final(cache)) == lru_entries(*old(cache)).remove(spec_key_index(lru_entries(*old(cache)), key@)),
        r is None ==> lru_entries(*final(cache)) == lru_entries(*old(cache)),
{
    cache.pop(key)
}

/// Trusted: `LruCache::peek`; the cluster with the key, without changing
/// the order.
#[verifier::external_body]
fn lru_peek(cache: &lru::LruCache<String, Cluster>, key: &str) -> (r: Option<Cluster>)
    requires
        spec_keys_distinct(lru_entries(*cache)),
    ensures
        r is None <==> !spec_has_key(lru_entries(*cache), key@),
        r matches Some(c) ==> c@ == lru_entries(*cache)[spec_key_index(lru_entries(*cache), key@)].1,
{
    cache.peek(key).map(|c| c.copy())
}

/// Trusted: `LruCache::contains`.
#[verifier::external_body]
fn lru_contains(cache: &lru::LruCache<String, Cluster>, key: &str) -> (b: bool)
    ensures
        b == spec_has_key(lru_entries(*cache), key@),
{
    cache.contains(key)
}

/// Trusted: `LruCache::len`.
#[verifier::external_body]
fn lru_len(cache: &lru::LruCache<String, Cluster>) -> (n: usize)
    ensures
        n == lru_entries(*cache).len(),
{
    cache.len()
}

// ---------------------------------------------------------------- lemmas on entries

/// The entries are well kept: distinct keys, each the id of its cluster,
/// and no more of them than the capacity.
pub open spec fn spec_entries_ok(e: Seq<(Seq<char>, ClusterView)>, cap: nat) -> bool {
    &&& spec_keys_distinct(e)
    &&& forall|i: int| 0 <= i < e.len() ==> (#[trigger] e[i]).0 == e[i].1.id
    &&& e.len() <= cap
}

proof fn lemma_remove_ok(e: Seq<(Seq<char>, ClusterView)>, cap: nat, i: int)
    requires
        spec_entries_ok(e, cap),
        0 <= i < e.len(),
    ensures
        spec_entries_ok(e.remove(i), cap),
        !spec_has_key(e.remove(i), e[i].0),
{
    let r = e.remove(i);
    assert forall|a: int, b: int| 0 <= a < r.len() && 0 <= b < r.len() && a != b implies #[trigger] r[a].0 != #[trigger] r[b].0 by {
        let a0 = if a < i { a } else { a + 1 };
        let b0 = if b < i { b } else { b + 1 };
        assert(r[a] == e[a0]);
        assert(r[b] == e[b0]);
    }
    assert forall|a: int| 0 <= a < r.len() implies (#[trigger] r[a]).0 == r[a].1.id by {
        let a0 = if a < i { a } else { a + 1 };
        assert(r[a] == e[a0]);
    }
    if spec_has_key(r, e[i].0) {
        let a = choose|a: int| 0 <= a < r.len() && #[trigger] r[a].0 == e[i].0;
        let a0 = if a < i { a } else { a + 1 };
        assert(r[a] == e[a0]);
        assert(e[a0].0 == e[i].0);
    }
}

proof fn lemma_put_ok(e: Seq<(Seq<char>, ClusterView)>, cap: nat, v: ClusterView)
    requires
        spec_entries_ok(e, cap),
        cap > 0,
    ensures
        spec_entries_ok(spec_lru_put(e, cap, v.id, v), cap),
        spec_lru_put(e, cap, v.id, v)[0] == (v.id, v),
{
    let k = v.id;
    let rest = if spec_has_key(e, k) {
        let i = spec_key_index(e, k);
        lemma_remove_ok(e, cap, i);
        e.remove(i)
    } else if e.len() == cap {
        e.drop_last()
    } else {
        e
    };
    let r = spec_lru_put(e, cap, k, v);
    assert(r == seq![(k, v)] + rest);
    assert(spec_entries_ok(rest, cap) && !spec_has_key(rest, k)) by {
        if !spec_has_key(e, k) && e.len() == cap {
            assert forall|a: int, b: int| 0 <= a < rest.len() && 0 <= b < rest.len() && a != b implies #[trigger] rest[a].0 != #[trigger] rest[b].0 by {
                assert(rest[a] == e[a]);
                assert(rest[b] == e[b]);
            }
            assert forall|a: int| 0 <= a < rest.len() implies (#[trigger] rest[a]).0 == rest[a].1.id by {
                assert(rest[a] == e[a]);
            }
            if spec_has_key(rest, k) {
                let a = choose|a: int| 0 <= a < rest.len() && #[trigger] rest[a].0 == k;
                assert(rest[a] == e[a]);
            }
        }
    }
    assert(rest.len() < cap);
    assert forall|a: int, b: int| 0 <= a < r.len() && 0 <= b < r.len() && a != b implies #[trigger] r[a].0 != #[trigger] r[b].0 by {
        if a == 0 {
            assert(r[b] == rest[b - 1]);
        } else if b == 0 {
            assert(r[a] == rest[a - 1]);
        } else {
            assert(r[a] == rest[a - 1]);
            assert(r[b] == rest[b - 1]);
        }
    }
    assert forall|a: int| 0 <= a < r.len() implies (#[trigger] r[a]).0 == r[a].1.id by {
        if a > 0 {
            assert(r[a] == rest[a - 1]);
        }
    }
}

// ---------------------------------------------------------------- the manager

/// Counters of a cluster manager.
#[derive(Debug, Clone, Copy)]
pub struct ClusterManagerStats {
    pub total_clusters_created: u64,
    pub total_clusters_updated: u64,
    pub total_clusters_evicted: u64,
    /// Similarity a fingerprint needs to join a cluster, in 320ths.
    pub similarity_threshold: u32,
}

/// One more, stopping at the largest value.
pub open spec fn spec_inc(x: u64) -> u64 {
    if x < u64::MAX { (x + 1) as u64 } else { x }
}

fn inc(x: u64) -> (y: u64)
    ensures
        y == spec_inc(x),
{
    if x < u64::MAX { x + 1 } else { x }
}

/// Number of clusters the cache holds at most.
pub const MAX_CLUSTERS: usize = 1000;

/// Score (in 320ths, so 0.85) from which a fingerprint joins a cluster.
/// Scores are counted in 320ths: a matching bit is worth 5 and the domain
/// bonus of 0.05 is 16.
pub const SIMILARITY_THRESHOLD: u32 = 272;

/// Score bonus (in 320ths, so 0.05) when the domains agree.
pub const DOMAIN_BONUS: u32 = 16;

/// Most similarity scores a cluster keeps.
pub const MAX_SIMILARITY_SCORES: usize = 100;

/// Score (in 320ths) of a fingerprint against a cluster: the similarity of
/// the hashes plus the domain bonus, at most 1.
pub open spec fn spec_cluster_score(fp_hash: u64, fp_domain: Seq<char>, c: ClusterView) -> nat {
    let raw = 5 * spec_matching_bits(fp_hash, c.centroid) + if fp_domain == c.domain { DOMAIN_BONUS as nat } else { 0nat };
    if raw > 320 { 320nat } else { raw }
}

/// The cluster a fingerprint joins: among those whose score reaches the
/// threshold, the first (most recently used) with the highest score.
pub open spec fn spec_best_cluster(e: Seq<(Seq<char>, ClusterView)>, fp_hash: u64, fp_domain: Seq<char>, threshold: nat) -> Option<int>
    decreases e.len(),
{
    if e.len() == 0 {
        None
    } else {
        let prev = spec_best_cluster(e.drop_last(), fp_hash, fp_domain, threshold);
        let last = e.len() - 1;
        let s = spec_cluster_score(fp_hash, fp_domain, e[last].1);
        match prev {
            None => if s >= threshold { Some(last) } else { None },
            Some(b) => if s >= threshold && s > spec_cluster_score(fp_hash, fp_domain, e[b].1) { Some(last) } else { Some(b) },
        }
    }
}

/// The cluster chosen for a fingerprint is one of the entries, and its
/// score reaches the threshold.
pub proof fn lemma_best_in_range(e: Seq<(Seq<char>, ClusterView)>, fp_hash: u64, fp_domain: Seq<char>, threshold: nat)
    ensures
        spec_best_cluster(e, fp_hash, fp_domain, threshold) matches Some(b) ==> 0 <= b < e.len()
            && spec_cluster_score(fp_hash, fp_domain, e[b].1) >= threshold,
    decreases e.len(),
{
    if e.len() > 0 {
        lemma_best_in_range(e.drop_last(), fp_hash, fp_domain, threshold);
    }
}

/// A new cluster made of one fingerprint.
pub open spec fn spec_new_cluster(id: Seq<char>, fp_hash: u64, fp_domain: Seq<char>, now_ms: u64) -> ClusterView {
    ClusterView {
        id,
        centroid: fp_hash,
        count: 1,
        domain: fp_domain,
        created_at_ms: now_ms,
        last_updated_ms: now_ms,
        similarity_scores: seq![64u32],
    }
}

/// Centroid after a fingerprint joins, when the cluster then counts `count`
/// fingerprints: each bit is the rounded weighted mean of the old bit (weight
/// `1 - 1/count`) and the new one (weight `1/count`). A first fingerprint
/// gives its own hash, a second sets the union of the bits, later ones leave
/// the centroid unchanged.
pub open spec fn spec_blend_centroid(centroid: u64, new_hash: u64, count: usize) -> u64 {
    if count <= 1 { new_hash } else if count == 2 { centroid | new_hash } else { centroid }
}

/// The scores after one more: the oldest leaves when there are more than 100.
pub open spec fn spec_push_score(scores: Seq<u32>, s: u32) -> Seq<u32> {
    let p = scores.push(s);
    if p.len() > MAX_SIMILARITY_SCORES { p.subrange(1, p.len() as int) } else { p }
}

/// A cluster after a fingerprint with `new_hash` joined at `now_ms`.
pub open spec fn spec_updated_cluster(c: ClusterView, new_hash: u64, now_ms: u64) -> ClusterView {
    let count = if c.count < usize::MAX { (c.count + 1) as usize } else { c.count };
    let centroid = spec_blend_centroid(c.centroid, new_hash, count);
    ClusterView {
        id: c.id,
        centroid,
        count,
        domain: c.domain,
        created_at_ms: c.created_at_ms,
        last_updated_ms: now_ms,
        similarity_scores: spec_push_score(c.similarity_scores, spec_matching_bits(new_hash, centroid) as u32),
    }
}

/// Clusters of similar fingerprints, at most 1000 of them, the least
/// recently used leaving first.
pub struct ClusterManager {
    clusters: lru::LruCache<String, Cluster>,
    similarity_threshold: u32,
    max_clusters: usize,
    stats: ClusterManagerStats,
}

impl ClusterManager {
    /// The manager's cache is well kept (see `spec_entries_ok`).
    pub closed spec fn wf(&self) -> bool {
        &&& spec_entries_ok(lru_entries(self.clusters), self.max_clusters as nat)
        &&& lru_capacity(self.clusters) == self.max_clusters
        &&& self.max_clusters > 0
    }

    /// The clusters, most recently used first, each with its id.
    pub closed spec fn entries(&self) -> Seq<(Seq<char>, ClusterView)> {
        lru_entries(self.clusters)
    }

    /// Most clusters kept.
    pub closed spec fn capacity(&self) -> nat {
        self.max_clusters as nat
    }

    /// Score (in 320ths) from which a fingerprint joins a cluster.
    pub closed spec fn threshold(&self) -> u32 {
        self.similarity_threshold
    }

    /// The counters.
    pub closed spec fn counters(&self) -> ClusterManagerStats {
        self.stats
    }

    /// What a well kept manager holds.
    pub proof fn lemma_wf(&self)
        requires
            self.wf(),
        ensures
            spec_entries_ok(self.entries(), self.capacity()),
            self.capacity() > 0,
    {
    }

    /// An empty manager of 1000 clusters with the 0.85 threshold.
    pub fn new() -> (m: Self)
        ensures
            m.wf(),
            m.entries() == Seq::<(Seq<char>, ClusterView)>::empty(),
            m.capacity() == MAX_CLUSTERS,
            m.threshold() == SIMILARITY_THRESHOLD,
            m.counters() == (ClusterManagerStats {
                total_clusters_created: 0,
                total_clusters_updated: 0,
                total_clusters_evicted: 0,
                similarity_threshold: SIMILARITY_THRESHOLD,
            }),
    {
        ClusterManager {
            clusters: lru_new(MAX_CLUSTERS),
            similarity_threshold: SIMILARITY_THRESHOLD,
            max_clusters: MAX_CLUSTERS,
            stats: ClusterManagerStats {
                total_clusters_created: 0,
                total_clusters_updated: 0,
                total_clusters_evicted: 0,
                similarity_threshold: SIMILARITY_THRESHOLD,
            },
        }
    }

    /// The cluster a fingerprint belongs to: the best matching one (see
    /// `spec_best_cluster`), which is left where it is; or, when none
    /// matches, a new cluster with id `new_id`, made at `now_ms` and put
    /// first.
    pub fn find_or_create_cluster_with(&mut self, fp: &ContextFingerprint, new_id: String, now_ms: u64) -> (id: String)
        requires
            old(self).wf(),
        ensures
            final(self).wf(),
            final(self).capacity() == old(self).capacity(),
            final(self).threshold() == old(self).threshold(),
            final(self).counters().total_clusters_updated == old(self).counters().total_clusters_updated,
            final(self).counters().total_clusters_evicted == old(self).counters().total_clusters_evicted,
            final(self).counters().similarity_threshold == old(self).counters().similarity_threshold,
            match spec_best_cluster(old(self).entries(), fp.simhash, fp.domain@, old(self).threshold() as nat) {
                Some(b) => {
                    &&& id@ == old(self).entries()[b].0
                    &&& final(self).entries() == old(self).entries()
                    &&& final(self).counters() == old(self).counters()
                },
                None => {
                    &&& id@ == new_id@
                    &&& final(self).entries() == spec_lru_put(old(self).entries(), old(self).capacity(), new_id@,
                        spec_new_cluster(new_id@, fp.simhash, fp.domain@, now_ms))
                    &&& final(self).counters().total_clusters_created == spec_inc(old(self).counters().total_clusters_created)
                },
            },
    {
        let snapshot = lru_snapshot(&self.clusters);
        let ghost e = lru_entries(self.clusters);
        let ghost thr = self.similarity_threshold as nat;
        let mut best: Option<usize> = None;
        let mut best_score: u32 = 0;
        let mut i: usize = 0;
        while i < snapshot.len()
            invariant
                snapshot@.map_values(|p: (String, Cluster)| (p.0@, p.1@)) == e,
                e.len() == snapshot@.len(),
                i <= snapshot@.len(),
                thr == self.similarity_threshold as nat,
                match best {
                    None => spec_best_cluster(e.take(i as int), fp.simhash, fp.domain@, thr) is None,
                    Some(b) => spec_best_cluster(e.take(i as int), fp.simhash, fp.domain@, thr) == Some(b as int)
                        && b < i
                        && best_score == spec_cluster_score(fp.simhash, fp.domain@, e[b as int].1),
                },
            decreases snapshot@.len() - i,
        {
            let c = &snapshot[i].1;
            assert(e[i as int].1 == c@);
            let sim = FingerprintGenerator::similarity(fp.simhash, c.centroid);
            let bonus: u32 = if fp.domain == c.domain { DOMAIN_BONUS } else { 0 };
            let raw: u32 = 5 * sim + bonus;
            let adjusted: u32 = if raw > 320 { 320 } else { raw };
            proof {
                assert(e.take(i + 1).drop_last() =~= e.take(i as int));
                assert(e.take(i + 1)[i as int] == e[i as int]);
                if let Some(b) = best {
                    assert(e.take(i + 1)[b as int] == e[b as int]);
                }
            }
            if adjusted >= self.similarity_threshold {
                match best {
                    None => {
                        best = Some(i);
                        best_score = adjusted;
                    },
                    Some(_) => {
                        if adjusted > best_score {
                            best = Some(i);
                            best_score = adjusted;
                        }
                    },
                }
            }
            i = i + 1;
        }
        assert(e.take(snapshot@.len() as int) =~= e);
        match best {
            Some(b) => {
                assert(e[b as int].0 == snapshot@[b as int].0@);
                snapshot[b].0.clone()
            },
            None => {
                let cluster = Cluster {
                    id: new_id.clone(),
                    centroid: fp.simhash,
                    count: 1,
                    domain: fp.domain.clone(),
                    created_at_ms: now_ms,
                    last_updated_ms: now_ms,
                    similarity_scores: vec![64u32],
                };
                assert(cluster@ =~= spec_new_cluster(new_id@, fp.simhash, fp.domain@, now_ms));
                proof {
                    lemma_put_ok(e, self.max_clusters as nat, cluster@);
                }
                lru_put(&mut self.clusters, new_id.clone(), cluster);
                self.stats.total_clusters_created = inc(self.stats.total_clusters_created);
                new_id
            },
        }
    }

    /// Adds a fingerprint with hash `new_simhash` to a cluster at `now_ms`
    /// (see `spec_updated_cluster`); the cluster becomes the most recently
    /// used. Nothing changes when there is no such cluster.
    pub fn update_cluster_at(&mut self, cluster_id: &str, new_simhash: u64, now_ms: u64)
        requires
            old(self).wf(),
        ensures
            final(self).wf(),
            final(self).capacity() == old(self).capacity(),
            final(self).threshold() == old(self).threshold(),
            spec_has_key(old(self).entries(), cluster_id@) ==> {
                let i = spec_key_index(old(self).entries(), cluster_id@);
                &&& final(self).entries() == seq![(cluster_id@, spec_updated_cluster(old(self).entries()[i].1, new_simhash, now_ms))]
                    + old(self).entries().remove(i)
                &&& final(self).counters() == (ClusterManagerStats {
                    total_clusters_updated: spec_inc(old(self).counters().total_clusters_updated),
                    ..old(self).counters()
                })
            },
            !spec_has_key(old(self).entries(), cluster_id@) ==> {
                &&& final(self).entries() == old(self).entries()
                &&& final(self).counters() == old(self).counters()
            },
    {
        let ghost e = lru_entries(self.clusters);
        let popped = lru_pop(&mut self.clusters, cluster_id);
        match popped {
            None => {},
            Some(mut cluster) => {
                let ghost i = spec_key_index(e, cluster_id@);
                proof {
                    lemma_remove_ok(e, self.max_clusters as nat, i);
                }
                if cluster.count < usize::MAX {
                    cluster.count = cluster.count + 1;
                }
                let count = cluster.count;
                let centroid = if count <= 1 {
                    new_simhash
                } else if count == 2 {
                    cluster.centroid | new_simhash
                } else {
                    cluster.centroid
                };
                cluster.centroid = centroid;
                cluster.last_updated_ms = now_ms;
                let similarity = FingerprintGenerator::similarity(new_simhash, centroid);
                cluster.similarity_scores.push(similarity);
                if cluster.similarity_scores.len() > MAX_SIMILARITY_SCORES {
                    cluster.similarity_scores.remove(0);
                }
                let ghost v = spec_updated_cluster(e[i].1, new_simhash, now_ms);
                assert(cluster.similarity_scores@ =~= v.similarity_scores);
                assert(cluster@ =~= v);
                proof {
                    lemma_put_ok(e.remove(i), self.max_clusters as nat, cluster@);
                }
                lru_put(&mut self.clusters, String::from_str(cluster_id), cluster);
                assert(!spec_has_key(e.remove(i), cluster_id@));
                assert(lru_entries(self.clusters) =~= seq![(cluster_id@, v)] + e.remove(i));
                self.stats.total_clusters_updated = inc(self.stats.total_clusters_updated);
            },
        }
    }

    /// The cluster with an id, if any (its place is left unchanged).
    pub fn get_cluster_info(&self, cluster_id: &str) -> (r: Option<Cluster>)
        requires
            self.wf(),
        ensures
            r is None <==> !spec_has_key(self.entries(), cluster_id@),
            r matches Some(c) ==> c@ == self.entries()[spec_key_index(self.entries(), cluster_id@)].1,
    {
        lru_peek(&self.clusters, cluster_id)
    }

    /// All clusters, most recently used first.
    pub fn get_all_clusters(&self) -> (v: Vec<Cluster>)
        ensures
            v@.map_values(|c: Cluster| c@) == self.entries().map_values(|p: (Seq<char>, ClusterView)| p.1),
    {
        let snapshot = lru_snapshot(&self.clusters);
        let ghost e = lru_entries(self.clusters);
        let mut v: Vec<Cluster> = Vec::new();
        let mut i: usize = 0;
        while i < snapshot.len()
            invariant
                snapshot@.map_values(|p: (String, Cluster)| (p.0@, p.1@)) == e,
                i <= snapshot@.len(),
                v@.map_values(|c: Cluster| c@) == e.take(i as int).map_values(|p: (Seq<char>, ClusterView)| p.1),
            decreases snapshot@.len() - i,
        {
            let c = snapshot[i].1.copy();
            let ghost before = v@;
            v.push(c);
            proof {
                assert(e[i as int].1 == c@);
                assert(v@.map_values(|c: Cluster| c@) =~= before.map_values(|c: Cluster| c@).push(c@));
                assert(e.take(i + 1).map_values(|p: (Seq<char>, ClusterView)| p.1) =~= e.take(i as int).map_values(|p: (Seq<char>, ClusterView)| p.1).push(e[i as int].1));
            }
            i = i + 1;
        }
        assert(e.take(snapshot@.len() as int) =~= e);
        v
    }

    /// The counters.
    pub fn get_stats(&self) -> (s: ClusterManagerStats)
        ensures
            s == self.counters(),
    {
        self.stats
    }

    /// Number of clusters.
    pub fn cluster_count(&self) -> (n: usize)
        ensures
            n == self.entries().len(),
    {
        lru_len(&self.clusters)
    }

    /// Whether a cluster has the id.
    pub fn has_cluster(&self, cluster_id: &str) -> (b: bool)
        ensures
            b == spec_has_key(self.entries(), cluster_id@),
    {
        lru_contains(&self.clusters, cluster_id)
    }
}

/// The entries made at or after `cutoff_ms`, in order.
pub open spec fn spec_kept_clusters(e: Seq<(Seq<char>, ClusterView)>, cutoff_ms: u64) -> Seq<(Seq<char>, ClusterView)>
    decreases e.len(),
{
    if e.len() == 0 {
        e
    } else {
        let prev = spec_kept_clusters(e.drop_last(), cutoff_ms);
        if e.last().1.created_at_ms >= cutoff_ms { prev.push(e.last()) } else { prev }
    }
}

proof fn lemma_kept_len(e: Seq<(Seq<char>, ClusterView)>, cutoff_ms: u64)
    ensures
        spec_kept_clusters(e, cutoff_ms).len() <= e.len(),
    decreases e.len(),
{
    if e.len() > 0 {
        lemma_kept_len(e.drop_last(), cutoff_ms);
    }
}

/// `x + n`, stopping at the largest value.
pub open spec fn spec_add_sat(x: u64, n: nat) -> u64 {
    if x + n <= u64::MAX { (x + n) as u64 } else { u64::MAX }
}

/// Milliseconds in a day.
pub const MS_PER_DAY: u64 = 86_400_000;

impl ClusterManager {
    /// Removes the clusters made more than `max_age_days` days before
    /// `now_ms`, keeping the order of the others, and counts them as evicted.
    pub fn cleanup_old_clusters_at(&mut self, now_ms: u64, max_age_days: i64)
        requires
            old(self).wf(),
            max_age_days >= 0,
            max_age_days * MS_PER_DAY <= now_ms,
        ensures
            final(self).wf(),
            final(self).capacity() == old(self).capacity(),
            final(self).threshold() == old(self).threshold(),
            final(self).entries() == spec_kept_clusters(old(self).entries(), (now_ms - max_age_days * MS_PER_DAY) as u64),
            final(self).counters() == (ClusterManagerStats {
                total_clusters_evicted: spec_add_sat(old(self).counters().total_clusters_evicted,
                    (old(self).entries().len() - final(self).entries().len()) as nat),
                ..old(self).counters()
            }),
    {
        let days: u64 = max_age_days as u64;
        let cutoff: u64 = now_ms - days * MS_PER_DAY;
        let snapshot = lru_snapshot(&self.clusters);
        let ghost e = lru_entries(self.clusters);
        let ghost ev0 = self.stats.total_clusters_evicted;
        let mut j: usize = 0;
        while j < snapshot.len()
            invariant
                snapshot@.map_values(|p: (String, Cluster)| (p.0@, p.1@)) == e,
                e.len() == snapshot@.len(),
                j <= snapshot@.len(),
                self.wf(),
                self.max_clusters == old(self).max_clusters,
                self.similarity_threshold == old(self).similarity_threshold,
                lru_entries(self.clusters) == spec_kept_clusters(e.take(j as int), cutoff) + e.skip(j as int),
                spec_kept_clusters(e.take(j as int), cutoff).len() <= j,
                self.stats == (ClusterManagerStats {
                    total_clusters_evicted: spec_add_sat(ev0, (j - spec_kept_clusters(e.take(j as int), cutoff).len()) as nat),
                    ..old(self).stats
                }),
            decreases snapshot@.len() - j,
        {
            let ghost f = spec_kept_clusters(e.take(j as int), cutoff);
            let ghost cur = lru_entries(self.clusters);
            proof {
                assert(e.take(j + 1).drop_last() =~= e.take(j as int));
                assert(e.take(j + 1).last() == e[j as int]);
                assert(e[j as int] == (snapshot@[j as int].0@, snapshot@[j as int].1@));
                assert(e.skip(j as int) =~= seq![e[j as int]] + e.skip(j + 1));
                lemma_kept_len(e.take(j + 1), cutoff);
            }
            if snapshot[j].1.created_at_ms < cutoff {
                let ghost k = e[j as int].0;
                proof {
                    assert(cur[f.len() as int] == e[j as int]);
                    assert(spec_has_key(cur, k));
                    let x = spec_key_index(cur, k);
                    assert(cur[x].0 == k);
                    assert(x == f.len());
                    lemma_remove_ok(cur, self.max_clusters as nat, x);
                }
                let _ = lru_pop(&mut self.clusters, snapshot[j].0.as_str());
                assert(lru_entries(self.clusters) =~= f + e.skip(j + 1));
                self.stats.total_clusters_evicted = inc(self.stats.total_clusters_evicted);
            } else {
                assert(cur =~= f.push(e[j as int]) + e.skip(j + 1));
            }
            j = j + 1;
        }
        assert(e.take(snapshot@.len() as int) =~= e);
        assert(e.skip(snapshot@.len() as int) =~= Seq::<(Seq<char>, ClusterView)>::empty());
        assert(lru_entries(self.clusters) =~= spec_kept_clusters(e, cutoff));
    }
}

/// The entries without the one with key `k` (unchanged when there is none).
pub open spec fn spec_remove_key(e: Seq<(Seq<char>, ClusterView)>, k: Seq<char>) -> Seq<(Seq<char>, ClusterView)> {
    if spec_has_key(e, k) { e.remove(spec_key_index(e, k)) } else { e }
}

/// Centroid of two merged clusters of `n1` and `n2` fingerprints: each bit
/// is the rounded weighted mean of the two bits, so the larger cluster's
/// centroid wins, and the union of the bits is taken when they are as large.
pub open spec fn spec_merge_centroid(c1: u64, n1: usize, c2: u64, n2: usize) -> u64 {
    if n2 < n1 { c1 } else if n2 > n1 { c2 } else { c1 | c2 }
}

/// The cluster `c1` after `c2` is merged into it.
pub open spec fn spec_merged_cluster(c1: ClusterView, c2: ClusterView) -> ClusterView {
    ClusterView {
        id: c1.id,
        centroid: spec_merge_centroid(c1.centroid, c1.count, c2.centroid, c2.count),
        count: if c1.count + c2.count <= usize::MAX { (c1.count + c2.count) as usize } else { usize::MAX },
        domain: c1.domain,
        created_at_ms: c1.created_at_ms,
        last_updated_ms: c1.last_updated_ms,
        similarity_scores: c1.similarity_scores + c2.similarity_scores,
    }
}

/// One merge step on (entries, merges so far): when both clusters are
/// there and their centroids agree on at least `min_matching` bits, the
/// second is merged into the first, which becomes the most recently used.
pub open spec fn spec_merge_step(st: (Seq<(Seq<char>, ClusterView)>, nat), id1: Seq<char>, id2: Seq<char>, min_matching: u32) -> (Seq<(Seq<char>, ClusterView)>, nat) {
    let e = st.0;
    if spec_has_key(e, id1) && spec_has_key(e, id2) {
        let c1 = e[spec_key_index(e, id1)].1;
        let c2 = e[spec_key_index(e, id2)].1;
        if spec_matching_bits(c1.centroid, c2.centroid) >= min_matching {
            (seq![(id1, spec_merged_cluster(c1, c2))] + spec_remove_key(spec_remove_key(e, id1), id2), st.1 + 1)
        } else {
            st
        }
    } else {
        st
    }
}

/// The steps for the pairs `(i, j)` with `i < j < j_end`, in order of `j`.
pub open spec fn spec_merge_row(st: (Seq<(Seq<char>, ClusterView)>, nat), ids: Seq<Seq<char>>, min_matching: u32, i: int, j_end: int) -> (Seq<(Seq<char>, ClusterView)>, nat)
    decreases j_end - i,
{
    if j_end <= i + 1 {
        st
    } else {
        spec_merge_step(spec_merge_row(st, ids, min_matching, i, j_end - 1), ids[i], ids[j_end - 1], min_matching)
    }
}

/// The steps for every pair `(i, j)` with `i < i_end` and `i < j`, row by
/// row.
pub open spec fn spec_merge_rows(st: (Seq<(Seq<char>, ClusterView)>, nat), ids: Seq<Seq<char>>, min_matching: u32, i_end: int) -> (Seq<(Seq<char>, ClusterView)>, nat)
    decreases i_end,
{
    if i_end <= 0 {
        st
    } else {
        spec_merge_row(spec_merge_rows(st, ids, min_matching, i_end - 1), ids, min_matching, i_end - 1, ids.len() as int)
    }
}

/// Merging every similar pair of clusters: for each pair of the clusters
/// present at the start (most recently used first), in order, the step of
/// `spec_merge_step`. Gives the entries and the number of merges.
pub open spec fn spec_merge_all(e: Seq<(Seq<char>, ClusterView)>, min_matching: u32) -> (Seq<(Seq<char>, ClusterView)>, nat) {
    let ids = e.map_values(|p: (Seq<char>, ClusterView)| p.0);
    spec_merge_rows((e, 0nat), ids, min_matching, ids.len() as int)
}

/// A merge step keeps the entries well kept and the sum of their number
/// and the merges.
proof fn lemma_merge_step_ok(st: (Seq<(Seq<char>, ClusterView)>, nat), id1: Seq<char>, id2: Seq<char>, min_matching: u32, cap: nat)
    requires
        spec_entries_ok(st.0, cap),
        cap > 0,
        id1 != id2,
    ensures
        spec_entries_ok(spec_merge_step(st, id1, id2, min_matching).0, cap),
        spec_merge_step(st, id1, id2, min_matching).0.len() + spec_merge_step(st, id1, id2, min_matching).1 == st.0.len() + st.1,
{
    let e = st.0;
    if spec_has_key(e, id1) && spec_has_key(e, id2) {
        let i1 = spec_key_index(e, id1);
        lemma_remove_ok(e, cap, i1);
        let e1 = e.remove(i1);
        let a = spec_key_index(e, id2);
        let a1 = if a < i1 { a } else { a - 1 };
        assert(a != i1);
        assert(e1[a1] == e[a]);
        assert(spec_has_key(e1, id2));
        let i2 = spec_key_index(e1, id2);
        lemma_remove_ok(e1, cap, i2);
        let e2 = e1.remove(i2);
        let c1 = e[i1].1;
        let c2 = e[a].1;
        let m = spec_merged_cluster(c1, c2);
        assert(m.id == id1);
        assert(!spec_has_key(e2, id1)) by {
            if spec_has_key(e2, id1) {
                let b = choose|b: int| 0 <= b < e2.len() && #[trigger] e2[b].0 == id1;
                let b1 = if b < i2 { b } else { b + 1 };
                assert(e2[b] == e1[b1]);
            }
        }
        lemma_put_ok(e2, cap, m);
        assert(spec_lru_put(e2, cap, id1, m) == seq![(id1, m)] + e2);
    }
}

impl ClusterManager {
    /// Merges every pair of clusters whose centroids agree on at least
    /// `min_matching_bits` bits (see `spec_merge_all`) and returns the
    /// number of merges.
    pub fn merge_similar_clusters(&mut self, min_matching_bits: u32) -> (merged: usize)
        requires
            old(self).wf(),
        ensures
            final(self).wf(),
            final(self).capacity() == old(self).capacity(),
            final(self).threshold() == old(self).threshold(),
            final(self).counters() == old(self).counters(),
            final(self).entries() == spec_merge_all(old(self).entries(), min_matching_bits).0,
            merged == spec_merge_all(old(self).entries(), min_matching_bits).1,
    {
        let snapshot = lru_snapshot(&self.clusters);
        let ghost e = lru_entries(self.clusters);
        let ghost ids = e.map_values(|p: (Seq<char>, ClusterView)| p.0);
        let ghost cap = self.max_clusters as nat;
        proof {
            assert forall|a: int, b: int| 0 <= a < ids.len() && 0 <= b < ids.len() && a != b implies #[trigger] ids[a] != #[trigger] ids[b] by {
                assert(ids[a] == e[a].0);
                assert(ids[b] == e[b].0);
            }
        }
        let n = snapshot.len();
        let mut merged: usize = 0;
        let mut i: usize = 0;
        while i < n
            invariant
                snapshot@.map_values(|p: (String, Cluster)| (p.0@, p.1@)) == e,
                ids == e.map_values(|p: (Seq<char>, ClusterView)| p.0),
                n == e.len(),
                i <= n,
                cap == self.max_clusters,
                self.wf(),
                self.max_clusters == old(self).max_clusters,
                self.similarity_threshold == old(self).similarity_threshold,
                self.stats == old(self).stats,
                forall|a: int, b: int| 0 <= a < ids.len() && 0 <= b < ids.len() && a != b ==> #[trigger] ids[a] != #[trigger] ids[b],
                (lru_entries(self.clusters), merged as nat) == spec_merge_rows((e, 0nat), ids, min_matching_bits, i as int),
                lru_entries(self.clusters).len() + merged == e.len(),
            decreases n - i,
        {
            let ghost row_start = (lru_entries(self.clusters), merged as nat);
            let mut j: usize = i + 1;
            while j < n
                invariant
                    snapshot@.map_values(|p: (String, Cluster)| (p.0@, p.1@)) == e,
                    ids == e.map_values(|p: (Seq<char>, ClusterView)| p.0),
                    n == e.len(),
                    i < n,
                    i + 1 <= j <= n,
                    cap == self.max_clusters,
                    self.wf(),
                    self.max_clusters == old(self).max_clusters,
                    self.similarity_threshold == old(self).similarity_threshold,
                    self.stats == old(self).stats,
                    forall|a: int, b: int| 0 <= a < ids.len() && 0 <= b < ids.len() && a != b ==> #[trigger] ids[a] != #[trigger] ids[b],
                    spec_entries_ok(row_start.0, cap),
                    (lru_entries(self.clusters), merged as nat) == spec_merge_row(row_start, ids, min_matching_bits, i as int, j as int),
                    lru_entries(self.clusters).len() + merged == e.len(),
                decreases n - j,
            {
                let id1 = snapshot[i].0.as_str();
                let id2 = snapshot[j].0.as_str();
                let ghost st = (lru_entries(self.clusters), merged as nat);
                let ghost cur = lru_entries(self.clusters);
                proof {
                    assert(ids[i as int] == e[i as int].0);
                    assert(ids[j as int] == e[j as int].0);
                    assert(id1@ == ids[i as int]);
                    assert(id2@ == ids[j as int]);
                    assert(id1@ != id2@);
                    lemma_merge_step_ok(st, id1@, id2@, min_matching_bits, cap);
                }
                let p1 = lru_peek(&self.clusters, id1);
                let p2 = lru_peek(&self.clusters, id2);
                match (p1, p2) {
                    (Some(c1), Some(c2)) => {
                        let similarity = FingerprintGenerator::similarity(c1.centroid, c2.centroid);
                        if similarity >= min_matching_bits {
                            let ghost i1 = spec_key_index(cur, id1@);
                            proof {
                                lemma_remove_ok(cur, cap, i1);
                            }
                            let first = lru_pop(&mut self.clusters, id1);
                            let ghost cur1 = lru_entries(self.clusters);
                            proof {
                                let a = spec_key_index(cur, id2@);
                                let a1 = if a < i1 { a } else { a - 1 };
                                assert(cur1[a1] == cur[a]);
                                assert(spec_has_key(cur1, id2@));
                                lemma_remove_ok(cur1, cap, spec_key_index(cur1, id2@));
                                assert(cur1[spec_key_index(cur1, id2@)].1 == cur[a].1) by {
                                    let x = spec_key_index(cur1, id2@);
                                    let x0 = if x < i1 { x } else { x + 1 };
                                    assert(cur1[x] == cur[x0]);
                                }
                            }
                            let second = lru_pop(&mut self.clusters, id2);
                            match (first, second) {
                                (Some(mut a), Some(b)) => {
                                    let total: usize = if a.count <= usize::MAX - b.count { a.count + b.count } else { usize::MAX };
                                    let centroid = if b.count < a.count {
                                        a.centroid
                                    } else if b.count > a.count {
                                        b.centroid
                                    } else {
                                        a.centroid | b.centroid
                                    };
                                    a.count = total;
                                    a.centroid = centroid;
                                    let mut scores = b.similarity_scores;
                                    a.similarity_scores.append(&mut scores);
                                    let ghost m = spec_merged_cluster(cur[i1].1, cur[spec_key_index(cur, id2@)].1);
                                    assert(a@ =~= m);
                                    let ghost e2 = lru_entries(self.clusters);
                                    proof {
                                        assert(!spec_has_key(e2, id1@)) by {
                                            if spec_has_key(e2, id1@) {
                                                let b2 = choose|b2: int| 0 <= b2 < e2.len() && #[trigger] e2[b2].0 == id1@;
                                                let i2 = spec_key_index(cur1, id2@);
                                                let b1 = if b2 < i2 { b2 } else { b2 + 1 };
                                                assert(e2[b2] == cur1[b1]);
                                            }
                                        }
                                        lemma_put_ok(e2, cap, m);
                                    }
                                    lru_put(&mut self.clusters, String::from_str(id1), a);
                                    merged = merged + 1;
                                    assert(lru_entries(self.clusters) =~= spec_merge_step(st, id1@, id2@, min_matching_bits).0);
                                },
                                _ => {
                                    assert(false);
                                },
                            }
                        }
                    },
                    _ => {},
                }
                j = j + 1;
            }
            proof {
                assert(spec_merge_rows((e, 0nat), ids, min_matching_bits, i + 1) == spec_merge_row(row_start, ids, min_matching_bits, i as int, n as int));
            }
            i = i + 1;
        }
        merged
    }
}

/// A character of a hyphenated lower-case UUID at position `i`.
pub open spec fn spec_uuid_char(i: int, c: char) -> bool {
    if i == 8 || i == 13 || i == 18 || i == 23 {
        c == '-'
    } else {
        ('0' <= c && c <= '9') || ('a' <= c && c <= 'f')
    }
}

/// A fresh random identifier. Trusted: `uuid::Uuid::new_v4` formatted with
/// `to_string`; claims only the shape of the text (36 characters,
/// hyphenated lower-case hexadecimal), not its value.
#[verifier::external_body]
fn new_uuid_string() -> (s: String)
    ensures
        s@.len() == 36,
        forall|i: int| 0 <= i < 36 ==> spec_uuid_char(i, #[trigger] s@[i]),
{
    uuid::Uuid::new_v4().to_string()
}

/// Identifiers of new clusters: `cluster_` and eight hexadecimal digits.
pub open spec fn spec_is_cluster_id(id: Seq<char>) -> bool {
    &&& id.len() == 16
    &&& id.take(8) == "cluster_"@
    &&& forall|i: int| 8 <= i < 16 ==> spec_uuid_char(i - 8, #[trigger] id[i])
}

impl ClusterManager {
    /// The cluster a fingerprint belongs to, made now with a fresh random id
    /// when none matches (see `find_or_create_cluster_with`).
    pub fn find_or_create_cluster(&mut self, fp: &ContextFingerprint) -> (id: String)
        requires
            old(self).wf(),
        ensures
            final(self).wf(),
            final(self).capacity() == old(self).capacity(),
            final(self).threshold() == old(self).threshold(),
            match spec_best_cluster(old(self).entries(), fp.simhash, fp.domain@, old(self).threshold() as nat) {
                Some(b) => {
                    &&& id@ == old(self).entries()[b].0
                    &&& final(self).entries() == old(self).entries()
                    &&& final(self).counters() == old(self).counters()
                },
                None => {
                    &&& spec_is_cluster_id(id@)
                    &&& exists|t: u64| final(self).entries() == spec_lru_put(old(self).entries(), old(self).capacity(), id@,
                        #[trigger] spec_new_cluster(id@, fp.simhash, fp.domain@, t))
                    &&& final(self).counters().total_clusters_created == spec_inc(old(self).counters().total_clusters_created)
                },
            },
    {
        let u = new_uuid_string();
        let suffix = u.as_str().substring_char(0, 8);
        let new_id = join2("cluster_", suffix);
        proof {
            reveal_strlit("cluster_");
            assert(new_id@.take(8) =~= "cluster_"@);
            assert forall|i: int| 8 <= i < 16 implies spec_uuid_char(i - 8, #[trigger] new_id@[i]) by {
                assert(new_id@[i] == u@[i - 8]);
            }
        }
        let now = unix_time_millis();
        self.find_or_create_cluster_with(fp, new_id, now)
    }

    /// Adds a fingerprint to a cluster now (see `update_cluster_at`).
    pub fn update_cluster(&mut self, cluster_id: &str, new_simhash: u64)
        requires
            old(self).wf(),
        ensures
            final(self).wf(),
            final(self).capacity() == old(self).capacity(),
            final(self).threshold() == old(self).threshold(),
            spec_has_key(old(self).entries(), cluster_id@) ==> exists|t: u64|
                final(self).entries() == seq![(cluster_id@, #[trigger] spec_updated_cluster(
                    old(self).entries()[spec_key_index(old(self).entries(), cluster_id@)].1, new_simhash, t))]
                    + old(self).entries().remove(spec_key_index(old(self).entries(), cluster_id@)),
            spec_has_key(old(self).entries(), cluster_id@) ==> final(self).counters() == (ClusterManagerStats {
                total_clusters_updated: spec_inc(old(self).counters().total_clusters_updated),
                ..old(self).counters()
            }),
            !spec_has_key(old(self).entries(), cluster_id@) ==> final(self).entries() == old(self).entries()
                && final(self).counters() == old(self).counters(),
    {
        let now = unix_time_millis();
        self.update_cluster_at(cluster_id, new_simhash, now);
    }

    /// Removes the clusters made more than `max_age_days` days ago (see
    /// `cleanup_old_clusters_at`). Nothing is removed when the clock reads
    /// less than that many days since the epoch.
    pub fn cleanup_old_clusters(&mut self, max_age_days: i64)
        requires
            old(self).wf(),
            max_age_days >= 0,
            max_age_days * MS_PER_DAY <= u64::MAX,
        ensures
            final(self).wf(),
            final(self).capacity() == old(self).capacity(),
            final(self).threshold() == old(self).threshold(),
            exists|t: u64| final(self).entries() == #[trigger] spec_kept_clusters(old(self).entries(), t),
            final(self).counters() == (ClusterManagerStats {
                total_clusters_evicted: spec_add_sat(old(self).counters().total_clusters_evicted,
                    (old(self).entries().len() - final(self).entries().len()) as nat),
                ..old(self).counters()
            }),
    {
        let now = unix_time_millis();
        let span: u64 = (max_age_days as u64) * MS_PER_DAY;
        if span <= now {
            self.cleanup_old_clusters_at(now, max_age_days);
        } else {
            assert(spec_kept_clusters(old(self).entries(), 0) == old(self).entries()) by {
                lemma_kept_all(old(self).entries());
            }
        }
    }
}

proof fn lemma_kept_all(e: Seq<(Seq<char>, ClusterView)>)
    ensures
        spec_kept_clusters(e, 0) == e,
    decreases e.len(),
{
    if e.len() > 0 {
        lemma_kept_all(e.drop_last());
        assert(e.drop_last().push(e.last()) =~= e);
    }
}

proof fn lemma_first_is_best(e: Seq<(Seq<char>, ClusterView)>, fp_hash: u64, fp_domain: Seq<char>, threshold: nat)
    requires
        e.len() > 0,
        spec_cluster_score(fp_hash, fp_domain, e[0].1) >= threshold,
        forall|i: int| 0 <= i < e.len() ==> spec_cluster_score(fp_hash, fp_domain, #[trigger] e[i].1) <= spec_cluster_score(fp_hash, fp_domain, e[0].1),
    ensures
        spec_best_cluster(e, fp_hash, fp_domain, threshold) == Some(0int),
    decreases e.len(),
{
    if e.len() > 1 {
        let d = e.drop_last();
        assert forall|i: int| 0 <= i < d.len() implies spec_cluster_score(fp_hash, fp_domain, #[trigger] d[i].1) <= spec_cluster_score(fp_hash, fp_domain, d[0].1) by {
            assert(d[i] == e[i]);
        }
        lemma_first_is_best(d, fp_hash, fp_domain, threshold);
        assert(spec_cluster_score(fp_hash, fp_domain, e[e.len() - 1].1) <= spec_cluster_score(fp_hash, fp_domain, e[0].1));
        assert(d[0] == e[0]);
        assert(spec_best_cluster(e.drop_last(), fp_hash, fp_domain, threshold) == Some(0int));
    } else {
        assert(spec_best_cluster(e.drop_last(), fp_hash, fp_domain, threshold) is None);
    }
    assert(e[e.len() - 1 - 0] == e[e.len() - 1]);
}

/// The same fingerprint finds the same cluster again: after a fingerprint
/// was placed (in the cluster it matched, or in a new cluster put first),
/// looking it up again picks a cluster with the same id.
pub proof fn lemma_same_fingerprint_same_cluster(
    e: Seq<(Seq<char>, ClusterView)>,
    cap: nat,
    threshold: nat,
    fp_hash: u64,
    fp_domain: Seq<char>,
    new_id: Seq<char>,
    now_ms: u64,
)
    requires
        spec_entries_ok(e, cap),
        cap > 0,
        threshold <= 320,
    ensures
        ({
            let (e1, id1) = match spec_best_cluster(e, fp_hash, fp_domain, threshold) {
                Some(b) => (e, e[b].0),
                None => (spec_lru_put(e, cap, new_id, spec_new_cluster(new_id, fp_hash, fp_domain, now_ms)), new_id),
            };
            spec_best_cluster(e1, fp_hash, fp_domain, threshold) matches Some(b1) && e1[b1].0 == id1
        }),
{
    lemma_best_in_range(e, fp_hash, fp_domain, threshold);
    match spec_best_cluster(e, fp_hash, fp_domain, threshold) {
        Some(b) => {},
        None => {
            let v = spec_new_cluster(new_id, fp_hash, fp_domain, now_ms);
            let e1 = spec_lru_put(e, cap, new_id, v);
            lemma_similarity_laws(fp_hash, fp_hash);
            assert(spec_cluster_score(fp_hash, fp_domain, v) == 320);
            assert(e1[0] == (new_id, v));
            lemma_first_is_best(e1, fp_hash, fp_domain, threshold);
        },
    }
}

} // verus!

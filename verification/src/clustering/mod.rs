//! Grouping of similar contexts: SimHash fingerprints of a context and a
//! recency-ordered set of clusters of fingerprints.
use vstd::prelude::*;
use crate::clock::unix_time_millis;
use crate::context::{spec_same_context, Context};
use crate::text::spec_strings;

pub mod fingerprint;
pub mod manager;

use fingerprint::{spec_context_features, spec_feature_hashes, spec_is_simhash, ContextFingerprint, FingerprintGenerator};
use manager::{spec_best_cluster, spec_has_key, spec_inc, spec_is_cluster_id, spec_key_index, spec_kept_clusters, spec_lru_put, spec_new_cluster, spec_updated_cluster, Cluster, ClusterManager, ClusterView, MS_PER_DAY};

verus! {

/// A context with its fingerprint and the cluster it joined.
#[derive(Debug)]
pub struct ProcessedContext {
    pub context: Context,
    pub fingerprint: ContextFingerprint,
    pub cluster_id: String,
    pub processing_time_ms: u64,
}

/// Counters of the clustering system.
#[derive(Debug, Clone)]
pub struct ClusteringStats {
    pub total_contexts_processed: u64,
    pub total_clusters_created: u64,
    pub total_clusters_updated: u64,
    pub total_processing_time_ms: u64,
    /// How many recorded similarities fell in each bucket, in the order of
    /// `similarity_bucket`'s indices.
    pub similarity_distribution: Vec<u64>,
}

/// Number of similarity buckets.
pub const SIMILARITY_BUCKETS: usize = 5;

/// The bucket of a similarity given in sixty-fourths: 0 for 0.95-1.00, 1 for
/// 0.90-0.95, 2 for 0.85-0.90, 3 for 0.80-0.85 and 4 below.
pub open spec fn spec_similarity_bucket(similarity: u32) -> nat {
    if similarity >= 61 { 0 } else if similarity >= 58 { 1 } else if similarity >= 55 { 2 } else if similarity >= 52 { 3 } else { 4 }
}

/// Label of a similarity bucket.
pub open spec fn spec_bucket_label(b: nat) -> Seq<char> {
    if b == 0 { "0.95-1.00"@ } else if b == 1 { "0.90-0.95"@ } else if b == 2 { "0.85-0.90"@ } else if b == 3 { "0.80-0.85"@ } else { "0.00-0.80"@ }
}

/// The bucket of a similarity given in sixty-fourths.
pub fn similarity_bucket(similarity: u32) -> (b: usize)
    ensures
        b == spec_similarity_bucket(similarity),
{
    if similarity >= 61 { 0 } else if similarity >= 58 { 1 } else if similarity >= 55 { 2 } else if similarity >= 52 { 3 } else { 4 }
}

/// Label of a similarity bucket.
pub fn bucket_label(b: usize) -> (s: &'static str)
    ensures
        s@ == spec_bucket_label(b as nat),
{
    if b == 0 { "0.95-1.00" } else if b == 1 { "0.90-0.95" } else if b == 2 { "0.85-0.90" } else if b == 3 { "0.80-0.85" } else { "0.00-0.80" }
}

fn add_sat(x: u64, y: u64) -> (z: u64)
    ensures
        z == if x + y <= u64::MAX { (x + y) as u64 } else { u64::MAX },
{
    if x <= u64::MAX - y { x + y } else { u64::MAX }
}

impl ClusteringStats {
    /// Counters at zero.
    pub fn new() -> (s: Self)
        ensures
            s.total_contexts_processed == 0,
            s.total_clusters_created == 0,
            s.total_clusters_updated == 0,
            s.total_processing_time_ms == 0,
            s.similarity_distribution@ == seq![0u64, 0u64, 0u64, 0u64, 0u64],
    {
        let d: Vec<u64> = vec![0u64, 0u64, 0u64, 0u64, 0u64];
        assert(d@ =~= seq![0u64, 0u64, 0u64, 0u64, 0u64]);
        ClusteringStats {
            total_contexts_processed: 0,
            total_clusters_created: 0,
            total_clusters_updated: 0,
            total_processing_time_ms: 0,
            similarity_distribution: d,
        }
    }

    /// Counts one processed context that took `duration_ms`.
    pub fn record_processing(&mut self, duration_ms: u64)
        ensures
            final(self).total_contexts_processed == spec_inc(old(self).total_contexts_processed),
            final(self).total_processing_time_ms == if old(self).total_processing_time_ms + duration_ms <= u64::MAX {
                (old(self).total_processing_time_ms + duration_ms) as u64
            } else {
                u64::MAX
            },
            final(self).total_clusters_created == old(self).total_clusters_created,
            final(self).total_clusters_updated == old(self).total_clusters_updated,
            final(self).similarity_distribution@ == old(self).similarity_distribution@,
    {
        self.total_contexts_processed = add_sat(self.total_contexts_processed, 1);
        self.total_processing_time_ms = add_sat(self.total_processing_time_ms, duration_ms);
    }

    /// Counts a created cluster.
    pub fn record_cluster_created(&mut self)
        ensures
            final(self).total_clusters_created == spec_inc(old(self).total_clusters_created),
            final(self).total_contexts_processed == old(self).total_contexts_processed,
            final(self).total_clusters_updated == old(self).total_clusters_updated,
            final(self).total_processing_time_ms == old(self).total_processing_time_ms,
            final(self).similarity_distribution@ == old(self).similarity_distribution@,
    {
        self.total_clusters_created = add_sat(self.total_clusters_created, 1);
    }

    /// Counts an updated cluster.
    pub fn record_cluster_updated(&mut self)
        ensures
            final(self).total_clusters_updated == spec_inc(old(self).total_clusters_updated),
            final(self).total_contexts_processed == old(self).total_contexts_processed,
            final(self).total_clusters_created == old(self).total_clusters_created,
            final(self).total_processing_time_ms == old(self).total_processing_time_ms,
            final(self).similarity_distribution@ == old(self).similarity_distribution@,
    {
        self.total_clusters_updated = add_sat(self.total_clusters_updated, 1);
    }

    /// Counts a similarity (in sixty-fourths) in its bucket.
    pub fn record_similarity(&mut self, similarity: u32)
        requires
            old(self).similarity_distribution@.len() == SIMILARITY_BUCKETS,
        ensures
            final(self).similarity_distribution@ == old(self).similarity_distribution@.update(
                spec_similarity_bucket(similarity) as int,
                spec_inc(old(self).similarity_distribution@[spec_similarity_bucket(similarity) as int]),
            ),
            final(self).total_contexts_processed == old(self).total_contexts_processed,
            final(self).total_clusters_created == old(self).total_clusters_created,
            final(self).total_clusters_updated == old(self).total_clusters_updated,
            final(self).total_processing_time_ms == old(self).total_processing_time_ms,
    {
        let b = similarity_bucket(similarity);
        let c = self.similarity_distribution[b];
        self.similarity_distribution.set(b, add_sat(c, 1));
    }
}

/// The clusters after the fingerprint hash `hash` joins cluster `id` at
/// time `t`: that cluster, updated, becomes the most recently used.
pub open spec fn spec_join_cluster(e: Seq<(Seq<char>, ClusterView)>, id: Seq<char>, hash: u64, t: u64) -> Seq<(Seq<char>, ClusterView)> {
    seq![(id, spec_updated_cluster(e[spec_key_index(e, id)].1, hash, t))] + e.remove(spec_key_index(e, id))
}

/// Fingerprints contexts and groups them into clusters.
pub struct ClusteringSystem {
    cluster_manager: ClusterManager,
    fingerprint_generator: FingerprintGenerator,
    stats: ClusteringStats,
}

impl ClusteringSystem {
    /// The system is well kept.
    pub closed spec fn wf(&self) -> bool {
        &&& self.cluster_manager.wf()
        &&& self.stats.similarity_distribution@.len() == SIMILARITY_BUCKETS
    }

    /// The clusters, most recently used first.
    pub closed spec fn clusters(&self) -> Seq<(Seq<char>, ClusterView)> {
        self.cluster_manager.entries()
    }

    /// Number of contexts processed.
    pub closed spec fn processed(&self) -> u64 {
        self.stats.total_contexts_processed
    }

    /// Weights used for fingerprints.
    pub closed spec fn weights(&self) -> Seq<u32> {
        self.fingerprint_generator.hash_weights@
    }

    /// The counters of the system.
    pub closed spec fn counters(&self) -> ClusteringStats {
        self.stats
    }

    /// Largest number of clusters kept.
    pub closed spec fn capacity(&self) -> nat {
        self.cluster_manager.capacity()
    }

    /// Similarity (in sixty-fourths) from which a context joins a cluster.
    pub closed spec fn threshold(&self) -> u32 {
        self.cluster_manager.threshold()
    }

    /// A system with no clusters: counters at zero, at most 1000 clusters,
    /// joining from the 0.85 threshold.
    pub fn new() -> (s: Self)
        ensures
            s.wf(),
            s.clusters() == Seq::<(Seq<char>, ClusterView)>::empty(),
            s.processed() == 0,
            s.weights() == fingerprint::spec_default_weights(),
            s.counters().total_contexts_processed == 0,
            s.counters().total_clusters_created == 0,
            s.counters().total_clusters_updated == 0,
            s.counters().total_processing_time_ms == 0,
            s.counters().similarity_distribution@ == seq![0u64, 0u64, 0u64, 0u64, 0u64],
            s.capacity() == manager::MAX_CLUSTERS,
            s.threshold() == manager::SIMILARITY_THRESHOLD,
    {
        ClusteringSystem {
            cluster_manager: ClusterManager::new(),
            fingerprint_generator: FingerprintGenerator::new(),
            stats: ClusteringStats::new(),
        }
    }

    /// Fingerprints a context, finds its best-matching cluster (or creates
    /// one with a new id when none matches well enough) and adds the
    /// fingerprint to it; that cluster is then the most recently used.
    pub fn process_context(&mut self, ctx: &Context) -> (r: Result<ProcessedContext, String>)
        requires
            old(self).wf(),
        ensures
            final(self).wf(),
            final(self).weights() == old(self).weights(),
            final(self).processed() == spec_inc(old(self).processed()),
            r matches Ok(p) && {
                &&& spec_same_context(p.context, *ctx)
                &&& spec_strings(p.fingerprint.features@) == spec_context_features(*ctx)
                &&& spec_is_simhash(p.fingerprint.simhash, old(self).weights(), spec_feature_hashes(spec_context_features(*ctx)))
                &&& p.fingerprint.domain@ == ctx.app.name@
                &&& final(self).clusters().len() > 0
                &&& final(self).clusters()[0].0 == p.cluster_id@
                &&& match spec_best_cluster(old(self).clusters(), p.fingerprint.simhash, p.fingerprint.domain@, old(self).threshold() as nat) {
                    Some(b) => {
                        &&& p.cluster_id@ == old(self).clusters()[b].0
                        &&& exists|t: u64| final(self).clusters()
                            == #[trigger] spec_join_cluster(old(self).clusters(), p.cluster_id@, p.fingerprint.simhash, t)
                    },
                    None => {
                        &&& spec_is_cluster_id(p.cluster_id@)
                        &&& exists|t1: u64, t2: u64| final(self).clusters() == #[trigger] spec_join_cluster(
                            spec_lru_put(old(self).clusters(), old(self).capacity(), p.cluster_id@,
                                spec_new_cluster(p.cluster_id@, p.fingerprint.simhash, p.fingerprint.domain@, t1)),
                            p.cluster_id@, p.fingerprint.simhash, t2)
                    },
                }
            },
            final(self).capacity() == old(self).capacity(),
            final(self).threshold() == old(self).threshold(),
    {
        let start = unix_time_millis();
        let fp = self.fingerprint_generator.generate(ctx);
        let ghost before = self.cluster_manager.entries();
        proof {
            manager::lemma_best_in_range(before, fp.simhash, fp.domain@, self.cluster_manager.threshold() as nat);
        }
        let cluster_id = self.cluster_manager.find_or_create_cluster(&fp);
        assert(spec_has_key(self.cluster_manager.entries(), cluster_id@)) by {
            let e = self.cluster_manager.entries();
            match manager::spec_best_cluster(before, fp.simhash, fp.domain@, self.cluster_manager.threshold() as nat) {
                Some(b) => {
                    assert(e[b].0 == cluster_id@);
                },
                None => {
                    let t = choose|t: u64| e == manager::spec_lru_put(before, self.cluster_manager.capacity(), cluster_id@,
                        #[trigger] manager::spec_new_cluster(cluster_id@, fp.simhash, fp.domain@, t));
                    assert(e[0].0 == cluster_id@);
                },
            }
        }
        let ghost mid = self.cluster_manager.entries();
        self.cluster_manager.update_cluster(cluster_id.as_str(), fp.simhash);
        proof {
            let t2 = choose|t: u64| self.cluster_manager.entries() == seq![(cluster_id@, #[trigger] spec_updated_cluster(
                mid[spec_key_index(mid, cluster_id@)].1, fp.simhash, t))] + mid.remove(spec_key_index(mid, cluster_id@));
            assert(self.cluster_manager.entries() == spec_join_cluster(mid, cluster_id@, fp.simhash, t2));
            match spec_best_cluster(before, fp.simhash, fp.domain@, self.cluster_manager.threshold() as nat) {
                Some(b) => {
                    assert(mid == before);
                },
                None => {
                    let t1 = choose|t: u64| mid == spec_lru_put(before, self.cluster_manager.capacity(), cluster_id@,
                        #[trigger] spec_new_cluster(cluster_id@, fp.simhash, fp.domain@, t));
                    assert(self.cluster_manager.entries() == spec_join_cluster(
                        spec_lru_put(before, self.cluster_manager.capacity(), cluster_id@,
                            spec_new_cluster(cluster_id@, fp.simhash, fp.domain@, t1)),
                        cluster_id@, fp.simhash, t2));
                },
            }
        }
        let end = unix_time_millis();
        let duration: u64 = if end >= start { end - start } else { 0 };
        self.stats.record_processing(duration);
        Ok(ProcessedContext {
            context: ctx.copy(),
            fingerprint: fp,
            cluster_id,
            processing_time_ms: duration,
        })
    }

    /// The cluster with an id, if any.
    pub fn get_cluster_info(&self, cluster_id: &str) -> (r: Option<Cluster>)
        requires
            self.wf(),
        ensures
            r is None <==> !spec_has_key(self.clusters(), cluster_id@),
            r matches Some(c) ==> c@ == self.clusters()[manager::spec_key_index(self.clusters(), cluster_id@)].1,
    {
        self.cluster_manager.get_cluster_info(cluster_id)
    }

    /// The counters.
    pub fn get_stats(&self) -> (s: &ClusteringStats)
        ensures
            *s == self.counters(),
            s.total_contexts_processed == self.processed(),
    {
        &self.stats
    }

    /// Removes the clusters made more than `max_age_days` days ago.
    pub fn cleanup_old_clusters(&mut self, max_age_days: i64)
        requires
            old(self).wf(),
            max_age_days >= 0,
            max_age_days * MS_PER_DAY <= u64::MAX,
        ensures
            final(self).wf(),
            final(self).weights() == old(self).weights(),
            final(self).processed() == old(self).processed(),
            exists|t: u64| final(self).clusters() == #[trigger] spec_kept_clusters(old(self).clusters(), t),
    {
        let ghost before = self.cluster_manager.entries();
        self.cluster_manager.cleanup_old_clusters(max_age_days);
        proof {
            let t = choose|t: u64| self.cluster_manager.entries() == #[trigger] spec_kept_clusters(before, t);
            assert(self.clusters() == spec_kept_clusters(old(self).clusters(), t));
        }
    }

    /// All clusters, most recently used first.
    pub fn get_all_clusters(&self) -> (v: Vec<Cluster>)
        ensures
            v@.map_values(|c: Cluster| c@) == self.clusters().map_values(|p: (Seq<char>, ClusterView)| p.1),
    {
        self.cluster_manager.get_all_clusters()
    }

    /// Number of clusters.
    pub fn get_cluster_count(&self) -> (n: usize)
        ensures
            n == self.clusters().len(),
    {
        self.cluster_manager.cluster_count()
    }
}

} // verus!

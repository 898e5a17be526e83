use shadowlearn::clustering::fingerprint::{count_ones, ContextFingerprint, FingerprintGenerator};
use shadowlearn::clustering::manager::{ClusterManager, MAX_CLUSTERS, SIMILARITY_THRESHOLD};
use shadowlearn::clustering::{bucket_label, similarity_bucket, ClusteringStats, ClusteringSystem};
use shadowlearn::context::{ActiveApp, Context};

fn context(name: &str, title: &str, clipboard: Option<&str>, idle_ms: u64) -> Context {
    Context {
        id: "ctx-1".to_string(),
        app: ActiveApp {
            bundle_id: "com.example.editor".to_string(),
            name: name.to_string(),
            window_title: title.to_string(),
            pid: 7,
            timestamp: 1_700_000_000,
            tcc_status: None,
        },
        clipboard: clipboard.map(|c| c.to_string()),
        idle_ms,
        timestamp: 1_700_000_000,
        capture_duration_ms: 3,
    }
}

fn fingerprint(simhash: u64, domain: &str) -> ContextFingerprint {
    ContextFingerprint { simhash, domain: domain.to_string(), features: vec![], generated_at_ms: 0 }
}

#[test]
fn test_similarity_counts_matching_bits() {
    assert_eq!(FingerprintGenerator::similarity(0xFF, 0xFF), 64);
    assert_eq!(FingerprintGenerator::similarity(0x00, 0xFF), 56);
    assert_eq!(FingerprintGenerator::similarity(0xFF, 0xFE), 63);
    assert_eq!(FingerprintGenerator::similarity(0, u64::MAX), 0);
    assert_eq!(count_ones(0xF0F0), 8);
    assert_eq!(count_ones(u64::MAX), 64);
}

#[test]
fn test_similarity_is_symmetric() {
    let a = 0x1234_5678_9abc_def0u64;
    let b = 0x0fed_cba9_8765_4321u64;
    assert_eq!(FingerprintGenerator::similarity(a, b), FingerprintGenerator::similarity(b, a));
}

#[test]
fn test_extract_keywords() {
    let g = FingerprintGenerator::new();
    assert_eq!(g.extract_keywords("The Quick brown fox is HERE"), vec!["quick", "brown", "fox", "here"]);
    assert!(g.is_stop_word("their"));
    assert!(!g.is_stop_word("rust"));
}

#[test]
fn test_extract_features() {
    let g = FingerprintGenerator::new();
    let ctx = context("Code", "main.rs Project", Some("fn main println"), 12_000);
    let f = g.extract_features(&ctx);
    assert_eq!(
        f,
        vec![
            "app:code",
            "title:main.rs",
            "title:project",
            "clip:main",
            "clip:println",
            "bundle:com.example.editor",
            "idle:short_idle",
        ]
    );
    let active = g.extract_features(&context("Code", "", None, 10));
    assert_eq!(active.last().unwrap(), "idle:active");
    let long = g.extract_features(&context("Code", "", None, 30_000));
    assert_eq!(long.last().unwrap(), "idle:long_idle");
}

#[test]
fn test_clipboard_features_limited_to_ten() {
    let g = FingerprintGenerator::new();
    let clip = "alpha bravo charlie delta echo foxtrot golf hotel india juliet kilo lima";
    let f = g.extract_features(&context("X", "", Some(clip), 0));
    assert_eq!(f.iter().filter(|s| s.starts_with("clip:")).count(), 10);
}

#[test]
fn test_simhash_of_one_feature_is_its_hash() {
    let g = FingerprintGenerator::new();
    let features = vec!["app:code".to_string()];
    let mut hasher = std::collections::hash_map::DefaultHasher::new();
    std::hash::Hash::hash("app:code", &mut hasher);
    let h = std::hash::Hasher::finish(&hasher);
    assert_eq!(g.compute_simhash(&features), h);
    assert_eq!(g.hash_feature("app:code"), h);
    assert_eq!(g.compute_simhash(&vec![]), 0);
}

#[test]
fn test_fingerprint_is_deterministic() {
    let g = FingerprintGenerator::new();
    let ctx = context("Code", "lib.rs", None, 0);
    let a = g.generate_at(&ctx, 10);
    let b = g.generate_at(&ctx, 20);
    assert_eq!(a.simhash, b.simhash);
    assert_eq!(a.domain, "Code");
    assert_eq!(a.generated_at_ms, 10);
    assert_eq!(a.similarity_to(&b), 64);
    assert!(a.is_similar_to(&b, 60));
    assert_eq!(b.age_at(25), 5);
    assert!(b.is_stale_at(100, 50));
    assert!(!b.is_stale_at(30, 50));
}

#[test]
fn test_cluster_manager_find_or_create() {
    let mut m = ClusterManager::new();
    assert_eq!(m.cluster_count(), 0);
    assert_eq!(m.get_stats().similarity_threshold, SIMILARITY_THRESHOLD);
    let fp = fingerprint(0xABCD, "Code");
    let id = m.find_or_create_cluster_with(&fp, "c1".to_string(), 100);
    assert_eq!(id, "c1");
    assert_eq!(m.cluster_count(), 1);
    assert!(m.has_cluster("c1"));
    assert_eq!(m.get_stats().total_clusters_created, 1);
    // The same fingerprint joins the same cluster.
    let again = m.find_or_create_cluster_with(&fp, "c2".to_string(), 200);
    assert_eq!(again, "c1");
    assert_eq!(m.cluster_count(), 1);
    // A fingerprint far from every centroid starts a new cluster.
    let far = fingerprint(!0xABCDu64, "Browser");
    let other = m.find_or_create_cluster_with(&far, "c2".to_string(), 300);
    assert_eq!(other, "c2");
    assert_eq!(m.cluster_count(), 2);
    let info = m.get_cluster_info("c2").unwrap();
    assert_eq!(info.centroid, !0xABCDu64);
    assert_eq!(info.count, 1);
    assert_eq!(info.created_at_ms, 300);
    assert_eq!(info.similarity_scores, vec![64]);
    assert!(m.get_cluster_info("zz").is_none());
}

#[test]
fn test_domain_bonus_decides() {
    let mut m = ClusterManager::new();
    m.find_or_create_cluster_with(&fingerprint(0, "Code"), "base".to_string(), 1);
    // 10 differing bits: 54/64 = 0.84 is below 0.85, but the domain bonus lifts it.
    let near = 0x3FFu64;
    assert_eq!(m.find_or_create_cluster_with(&fingerprint(near, "Code"), "n1".to_string(), 2), "base");
    assert_eq!(m.find_or_create_cluster_with(&fingerprint(near, "Other"), "n2".to_string(), 3), "n2");
}

#[test]
fn test_update_cluster() {
    let mut m = ClusterManager::new();
    m.find_or_create_cluster_with(&fingerprint(0b1100, "Code"), "c1".to_string(), 1);
    m.update_cluster_at("c1", 0b1100, 5);
    let c = m.get_cluster_info("c1").unwrap();
    assert_eq!(c.count, 2);
    assert_eq!(c.centroid, 0b1100);
    assert_eq!(c.last_updated_ms, 5);
    assert_eq!(c.similarity_scores, vec![64, 64]);
    // The second fingerprint adds its bits; later ones leave the centroid.
    let mut m2 = ClusterManager::new();
    m2.find_or_create_cluster_with(&fingerprint(0b0001, "Code"), "k".to_string(), 1);
    m2.update_cluster_at("k", 0b0010, 2);
    assert_eq!(m2.get_cluster_info("k").unwrap().centroid, 0b0011);
    m2.update_cluster_at("k", 0b0100, 3);
    let k = m2.get_cluster_info("k").unwrap();
    assert_eq!(k.centroid, 0b0011);
    assert_eq!(k.count, 3);
    assert_eq!(k.similarity_scores, vec![64, 63, 61]);
    assert_eq!(m2.get_stats().total_clusters_updated, 2);
    // Unknown clusters are left alone.
    m2.update_cluster_at("none", 1, 4);
    assert_eq!(m2.get_stats().total_clusters_updated, 2);
}

#[test]
fn test_similarity_scores_keep_last_hundred() {
    let mut m = ClusterManager::new();
    m.find_or_create_cluster_with(&fingerprint(0, "Code"), "c".to_string(), 1);
    for t in 0..150u64 {
        m.update_cluster_at("c", 0, t);
    }
    assert_eq!(m.get_cluster_info("c").unwrap().similarity_scores.len(), 100);
}

#[test]
fn test_cleanup_old_clusters() {
    let day = 86_400_000u64;
    let mut m = ClusterManager::new();
    m.find_or_create_cluster_with(&fingerprint(0, "A"), "old".to_string(), day);
    m.find_or_create_cluster_with(&fingerprint(u64::MAX, "B"), "new".to_string(), 10 * day);
    m.cleanup_old_clusters_at(11 * day, 5);
    assert!(!m.has_cluster("old"));
    assert!(m.has_cluster("new"));
    assert_eq!(m.get_stats().total_clusters_evicted, 1);
}

#[test]
fn test_merge_similar_clusters() {
    let mut m = ClusterManager::new();
    m.find_or_create_cluster_with(&fingerprint(0, "A"), "a".to_string(), 1);
    m.find_or_create_cluster_with(&fingerprint(u64::MAX, "B"), "b".to_string(), 2);
    // Both clusters move to one side: make "b" close to "a" through a third id.
    let mut m2 = ClusterManager::new();
    m2.find_or_create_cluster_with(&fingerprint(0, "A"), "a".to_string(), 1);
    m2.find_or_create_cluster_with(&fingerprint(0xFFFF_FFFF, "B"), "b".to_string(), 2);
    assert_eq!(m2.merge_similar_clusters(64), 0);
    assert_eq!(m2.cluster_count(), 2);
    // With a threshold of 32 matching bits the two merge into the most recent one.
    assert_eq!(m2.merge_similar_clusters(32), 1);
    assert_eq!(m2.cluster_count(), 1);
    let all = m2.get_all_clusters();
    assert_eq!(all[0].id, "b");
    assert_eq!(all[0].count, 2);
    assert_eq!(all[0].centroid, 0xFFFF_FFFF);
    assert_eq!(m.merge_similar_clusters(1), 0);
}

#[test]
fn test_fresh_cluster_ids() {
    let mut m = ClusterManager::new();
    let id = m.find_or_create_cluster(&fingerprint(42, "Code"));
    assert!(id.starts_with("cluster_"));
    assert_eq!(id.len(), 16);
    assert!(id[8..].chars().all(|c| c.is_ascii_hexdigit()));
    assert_eq!(m.find_or_create_cluster(&fingerprint(42, "Code")), id);
    assert_eq!(MAX_CLUSTERS, 1000);
}

#[test]
fn test_clustering_system_process_context() {
    let mut s = ClusteringSystem::new();
    let ctx = context("Code", "main.rs", Some("let x = 1;"), 0);
    let first = s.process_context(&ctx).unwrap();
    let second = s.process_context(&ctx).unwrap();
    assert_eq!(first.cluster_id, second.cluster_id);
    assert_eq!(first.fingerprint.simhash, second.fingerprint.simhash);
    assert_eq!(s.get_cluster_count(), 1);
    assert_eq!(s.get_stats().total_contexts_processed, 2);
    let c = s.get_cluster_info(&first.cluster_id).unwrap();
    assert_eq!(c.count, 3);
    assert_eq!(s.get_all_clusters().len(), 1);
}

#[test]
fn test_similarity_buckets() {
    assert_eq!(similarity_bucket(64), 0);
    assert_eq!(similarity_bucket(61), 0);
    assert_eq!(similarity_bucket(60), 1);
    assert_eq!(similarity_bucket(55), 2);
    assert_eq!(similarity_bucket(52), 3);
    assert_eq!(similarity_bucket(51), 4);
    assert_eq!(bucket_label(0), "0.95-1.00");
    assert_eq!(bucket_label(4), "0.00-0.80");
    let mut st = ClusteringStats::new();
    st.record_similarity(62);
    st.record_similarity(10);
    st.record_processing(7);
    assert_eq!(st.similarity_distribution, vec![1, 0, 0, 0, 1]);
    assert_eq!(st.total_processing_time_ms, 7);
    assert_eq!(st.total_contexts_processed, 1);
}

#[test]
fn test_staleness_against_the_clock() {
    let old = fingerprint(1, "code");
    assert!(old.is_stale(1000));
    let future = ContextFingerprint { simhash: 1, domain: "code".to_string(), features: vec![], generated_at_ms: u64::MAX };
    assert!(!future.is_stale(0));
}

#[test]
fn new_clustering_system_starts_at_zero() {
    let system = ClusteringSystem::new();
    let stats = system.get_stats();
    assert_eq!(stats.total_contexts_processed, 0);
    assert_eq!(stats.total_clusters_created, 0);
    assert_eq!(stats.total_clusters_updated, 0);
    assert_eq!(stats.total_processing_time_ms, 0);
    assert_eq!(stats.similarity_distribution, vec![0, 0, 0, 0, 0]);
    assert_eq!(system.get_cluster_count(), 0);
}

//! SimHash fingerprints of a context.
use vstd::prelude::*;
use crate::clock::unix_time_millis;
use crate::context::Context;
use crate::text::{
    join2, select_keywords, spec_keyword_candidates, spec_std_hash, spec_strings, spec_strs,
    spec_take_at_most, spec_split_whitespace, spec_to_lowercase, split_whitespace, std_hash,
    to_lowercase,
};

verus! {

// ---------------------------------------------------------------- bits

/// Bit `k` of `x`.
pub open spec fn spec_bit(x: u64, k: u64) -> bool {
    (x >> k) & 1u64 == 1u64
}

/// Number of set bits among the lowest `n` bits of `x`.
pub open spec fn spec_ones(x: u64, n: nat) -> nat
    decreases n,
{
    if n == 0 {
        0
    } else {
        spec_ones(x, (n - 1) as nat) + if spec_bit(x, (n - 1) as u64) { 1nat } else { 0nat }
    }
}

/// Number of bit positions in which two hashes agree.
pub open spec fn spec_matching_bits(a: u64, b: u64) -> nat {
    (64 - spec_ones(a ^ b, 64)) as nat
}

proof fn lemma_ones_bound(x: u64, n: nat)
    ensures
        spec_ones(x, n) <= n,
    decreases n,
{
    if n > 0 {
        lemma_ones_bound(x, (n - 1) as nat);
    }
}

/// Number of set bits of a word.
pub fn count_ones(x: u64) -> (c: u32)
    ensures
        c == spec_ones(x, 64),
{
    let mut c: u32 = 0;
    let mut k: u64 = 0;
    while k < 64
        invariant
            k <= 64,
            c == spec_ones(x, k as nat),
            c <= k,
        decreases 64 - k,
    {
        proof {
            lemma_ones_bound(x, k as nat);
        }
        if (x >> k) & 1u64 == 1u64 {
            c = c + 1;
        }
        k = k + 1;
    }
    c
}

// ---------------------------------------------------------------- simhash

/// Weights (in tenths) of the first features: 1.0, 0.8, 0.6, 0.4 and 0.2.
pub open spec fn spec_default_weights() -> Seq<u32> {
    seq![10u32, 8u32, 6u32, 4u32, 2u32]
}

/// Weight (in tenths) of the feature at a position: its listed weight, or
/// 0.1 past the list.
pub open spec fn spec_feature_weight(weights: Seq<u32>, i: nat) -> int {
    if i < weights.len() { weights[i as int] as int } else { 1 }
}

/// Vote of the hashes on bit `k`: each hash adds its weight when the bit is
/// set and takes it away otherwise.
pub open spec fn spec_bit_score(weights: Seq<u32>, hashes: Seq<u64>, k: u64) -> int
    decreases hashes.len(),
{
    if hashes.len() == 0 {
        0
    } else {
        let i = (hashes.len() - 1) as nat;
        spec_bit_score(weights, hashes.drop_last(), k) + if spec_bit(hashes.last(), k) {
            spec_feature_weight(weights, i)
        } else {
            -spec_feature_weight(weights, i)
        }
    }
}

/// `r` is the SimHash of the hashes: a bit is set exactly where the vote is
/// positive.
pub open spec fn spec_is_simhash(r: u64, weights: Seq<u32>, hashes: Seq<u64>) -> bool {
    forall|k: u64| k < 64 ==> (#[trigger] spec_bit(r, k) <==> spec_bit_score(weights, hashes, k) > 0)
}

/// The hashes of the features, in order.
pub open spec fn spec_feature_hashes(features: Seq<Seq<char>>) -> Seq<u64> {
    features.map_values(|f: Seq<char>| spec_std_hash(f))
}

proof fn lemma_score_bound(weights: Seq<u32>, hashes: Seq<u64>, k: u64)
    ensures
        -0x1_0000_0000 * hashes.len() <= spec_bit_score(weights, hashes, k) <= 0x1_0000_0000 * hashes.len(),
    decreases hashes.len(),
{
    if hashes.len() > 0 {
        lemma_score_bound(weights, hashes.drop_last(), k);
    }
}

proof fn lemma_set_bit(r: u64, b: u64, k: u64)
    requires
        b < 64,
        k < 64,
    ensures
        spec_bit(r | (1u64 << b), k) <==> (k == b || spec_bit(r, k)),
{
    assert(((r | (1u64 << b)) >> k) & 1u64 == 1u64 <==> (k == b || (r >> k) & 1u64 == 1u64)) by (bit_vector)
        requires
            b < 64,
            k < 64,
    ;
}

proof fn lemma_zero_bits(k: u64)
    requires
        k < 64,
    ensures
        !spec_bit(0u64, k),
{
    assert((0u64 >> k) & 1u64 != 1u64) by (bit_vector);
}

fn feature_weight(weights: &Vec<u32>, i: usize) -> (w: i128)
    ensures
        w == spec_feature_weight(weights@, i as nat),
{
    if i < weights.len() { weights[i] as i128 } else { 1 }
}

/// SimHash of a list of features: every feature is hashed, votes with its
/// weight on each of the 64 bits, and the bits with a positive vote are set.
fn simhash_of(weights: &Vec<u32>, features: &Vec<String>) -> (r: u64)
    ensures
        spec_is_simhash(r, weights@, spec_feature_hashes(spec_strings(features@))),
{
    let ghost hs = spec_feature_hashes(spec_strings(features@));
    let mut counts: Vec<i128> = Vec::new();
    let mut z: usize = 0;
    while z < 64
        invariant
            z <= 64,
            counts@.len() == z,
            forall|k: int| 0 <= k < z ==> counts@[k] == 0,
        decreases 64 - z,
    {
        counts.push(0);
        z = z + 1;
    }
    let mut i: usize = 0;
    while i < features.len()
        invariant
            i <= features@.len(),
            hs == spec_feature_hashes(spec_strings(features@)),
            hs.len() == features@.len(),
            counts@.len() == 64,
            forall|k: int| 0 <= k < 64 ==> #[trigger] counts@[k] == spec_bit_score(weights@, hs.take(i as int), k as u64),
        decreases features@.len() - i,
    {
        let h = std_hash(features[i].as_str());
        let w = feature_weight(weights, i);
        assert(h == hs[i as int]);
        assert(hs.take(i + 1).drop_last() =~= hs.take(i as int));
        let mut b: usize = 0;
        while b < 64
            invariant
                b <= 64,
                i < features@.len(),
                    h == hs[i as int],
                w == spec_feature_weight(weights@, i as nat),
                hs.len() == features@.len(),
                hs.take(i + 1).drop_last() == hs.take(i as int),
                counts@.len() == 64,
                forall|k: int| 0 <= k < b ==> #[trigger] counts@[k] == spec_bit_score(weights@, hs.take(i + 1), k as u64),
                forall|k: int| b <= k < 64 ==> #[trigger] counts@[k] == spec_bit_score(weights@, hs.take(i as int), k as u64),
            decreases 64 - b,
        {
            proof {
                lemma_score_bound(weights@, hs.take(i as int), b as u64);
            }
            let c = counts[b];
            let bb: u64 = b as u64;
            if (h >> bb) & 1u64 == 1u64 {
                counts.set(b, c + w);
            } else {
                counts.set(b, c - w);
            }
            assert(hs.take(i + 1).last() == h);
            b = b + 1;
        }
        i = i + 1;
    }
    assert(hs.take(features@.len() as int) =~= hs);
    let mut r: u64 = 0;
    let mut b: u64 = 0;
    assert forall|k: u64| 0 <= k < 64 implies !#[trigger] spec_bit(r, k) by {
        lemma_zero_bits(k);
    }
    while b < 64
        invariant
            b <= 64,
            counts@.len() == 64,
            forall|k: int| 0 <= k < 64 ==> #[trigger] counts@[k] == spec_bit_score(weights@, hs, k as u64),
            forall|k: u64| k < b ==> (#[trigger] spec_bit(r, k) <==> spec_bit_score(weights@, hs, k) > 0),
            forall|k: u64| b <= k < 64 ==> !#[trigger] spec_bit(r, k),
        decreases 64 - b,
    {
        let old_r = r;
        if counts[b as usize] > 0 {
            r = r | (1u64 << b);
            assert forall|k: u64| k < 64 implies (#[trigger] spec_bit(r, k) <==> (k == b || spec_bit(old_r, k))) by {
                lemma_set_bit(old_r, b, k);
            }
        }
        assert(counts@[b as int] == spec_bit_score(weights@, hs, b));
        b = b + 1;
    }
    r
}

// ---------------------------------------------------------------- features

/// Words left out of fingerprint keywords.
pub open spec fn spec_fingerprint_stop_words() -> Seq<Seq<char>> {
    seq![
        "the"@, "and"@, "or"@, "but"@, "in"@, "on"@, "at"@, "to"@, "for"@, "of"@, "with"@, "by"@, "a"@,
        "an"@, "is"@, "are"@, "was"@, "were"@, "be"@, "been"@, "have"@, "has"@, "had"@, "do"@, "does"@,
        "did"@, "will"@, "would"@, "could"@, "should"@, "may"@, "might"@, "this"@, "that"@, "these"@,
        "those"@, "i"@, "you"@, "he"@, "she"@, "it"@, "we"@, "they"@, "me"@, "him"@, "her"@, "us"@, "them"@,
        "my"@, "your"@, "his"@, "her"@, "its"@, "our"@, "their"@
    ]
}

fn fingerprint_stop_words() -> (a: [&'static str; 55])
    ensures
        spec_strs(a@) == spec_fingerprint_stop_words(),
{
    let a: [&'static str; 55] = [
        "the", "and", "or", "but", "in", "on", "at", "to", "for", "of", "with", "by", "a",
        "an", "is", "are", "was", "were", "be", "been", "have", "has", "had", "do", "does",
        "did", "will", "would", "could", "should", "may", "might", "this", "that", "these",
        "those", "i", "you", "he", "she", "it", "we", "they", "me", "him", "her", "us", "them",
        "my", "your", "his", "her", "its", "our", "their",
    ];
    assert(spec_strs(a@) =~= spec_fingerprint_stop_words());
    a
}

/// Keywords of a text: its whitespace-separated words of more than two
/// bytes, lower-cased, stop words removed, in order.
pub open spec fn spec_fingerprint_keywords(text: Seq<char>) -> Seq<Seq<char>> {
    spec_keyword_candidates(spec_split_whitespace(text), 2, spec_fingerprint_stop_words())
}

/// Most clipboard keywords that enter a fingerprint.
pub const MAX_CLIPBOARD_FEATURES: usize = 10;

/// Idle state of a fingerprint: under 5 s active, under 30 s a short idle,
/// otherwise a long idle.
pub open spec fn spec_idle_state(idle_ms: u64) -> Seq<char> {
    if idle_ms < 5000 { "active"@ } else if idle_ms < 30000 { "short_idle"@ } else { "long_idle"@ }
}

/// Each word with a prefix.
pub open spec fn spec_prefixed(prefix: Seq<char>, words: Seq<Seq<char>>) -> Seq<Seq<char>> {
    words.map_values(|w: Seq<char>| prefix + w)
}

/// The clipboard features: the first ten clipboard keywords.
pub open spec fn spec_clip_features(clipboard: Option<String>) -> Seq<Seq<char>> {
    match clipboard {
        Some(c) => spec_prefixed("clip:"@, spec_take_at_most(spec_fingerprint_keywords(c@), MAX_CLIPBOARD_FEATURES as nat)),
        None => Seq::empty(),
    }
}

/// The features of a context, most important first: the lower-cased
/// application name, the title keywords, the first ten clipboard keywords,
/// the bundle identifier and the idle state.
pub open spec fn spec_context_features(ctx: Context) -> Seq<Seq<char>> {
    seq!["app:"@ + spec_to_lowercase(ctx.app.name@)]
        + spec_prefixed("title:"@, spec_fingerprint_keywords(ctx.app.window_title@))
        + spec_clip_features(ctx.clipboard)
        + seq!["bundle:"@ + ctx.app.bundle_id@]
        + seq!["idle:"@ + spec_idle_state(ctx.idle_ms)]
}

fn push_prefixed(out: &mut Vec<String>, prefix: &str, words: &Vec<String>)
    ensures
        spec_strings(final(out)@) == spec_strings(old(out)@) + spec_prefixed(prefix@, spec_strings(words@)),
{
    let ghost start = spec_strings(out@);
    let mut i: usize = 0;
    while i < words.len()
        invariant
            i <= words@.len(),
            spec_strings(out@) == start + spec_prefixed(prefix@, spec_strings(words@).take(i as int)),
        decreases words@.len() - i,
    {
        let ghost before = spec_strings(out@);
        out.push(join2(prefix, words[i].as_str()));
        proof {
            assert(spec_strings(out@) =~= before.push(prefix@ + words@[i as int]@));
            assert(spec_prefixed(prefix@, spec_strings(words@).take(i + 1)) =~= spec_prefixed(prefix@, spec_strings(words@).take(i as int)).push(prefix@ + words@[i as int]@));
        }
        i = i + 1;
    }
    assert(spec_strings(words@).take(words@.len() as int) =~= spec_strings(words@));
}

proof fn lemma_candidates_len(words: Seq<Seq<char>>, min_bytes: nat, stop: Seq<Seq<char>>)
    ensures
        spec_keyword_candidates(words, min_bytes, stop).len() <= words.len(),
    decreases words.len(),
{
    if words.len() > 0 {
        lemma_candidates_len(words.drop_last(), min_bytes, stop);
    }
}

/// A SimHash fingerprint of a context.
#[derive(Debug, Clone)]
pub struct ContextFingerprint {
    pub simhash: u64,
    pub domain: String,
    pub features: Vec<String>,
    pub generated_at_ms: u64,
}

/// Computes SimHash fingerprints of contexts.
#[derive(Debug, Clone)]
pub struct FingerprintGenerator {
    /// Weights (in tenths) of the first features, most important first.
    pub hash_weights: Vec<u32>,
}

impl FingerprintGenerator {
    /// A generator with the weights 1.0, 0.8, 0.6, 0.4 and 0.2.
    pub fn new() -> (g: Self)
        ensures
            g.hash_weights@ == spec_default_weights(),
    {
        let w: Vec<u32> = vec![10u32, 8u32, 6u32, 4u32, 2u32];
        assert(w@ =~= spec_default_weights());
        FingerprintGenerator { hash_weights: w }
    }

    /// Whether a word is a stop word.
    pub fn is_stop_word(&self, word: &str) -> (b: bool)
        ensures
            b == spec_fingerprint_stop_words().contains(word@),
    {
        let a = fingerprint_stop_words();
        crate::text::word_in_list(word, &a)
    }

    /// Keywords of a text: words of more than two bytes, lower-cased, not
    /// stop words.
    pub fn extract_keywords(&self, text: &str) -> (k: Vec<String>)
        ensures
            spec_strings(k@) == spec_fingerprint_keywords(text@),
    {
        let words = split_whitespace(text);
        let stop = fingerprint_stop_words();
        let k = select_keywords(&words, 2, &stop, usize::MAX);
        proof {
            lemma_candidates_len(spec_strings(words@), 2, spec_fingerprint_stop_words());
        }
        k
    }

    /// The features of a context (see `spec_context_features`).
    pub fn extract_features(&self, ctx: &Context) -> (f: Vec<String>)
        ensures
            spec_strings(f@) == spec_context_features(*ctx),
    {
        let mut features: Vec<String> = Vec::new();
        let app_lower = to_lowercase(ctx.app.name.as_str());
        features.push(join2("app:", app_lower.as_str()));
        assert(spec_strings(features@) =~= seq!["app:"@ + spec_to_lowercase(ctx.app.name@)]);
        let title_words = self.extract_keywords(ctx.app.window_title.as_str());
        push_prefixed(&mut features, "title:", &title_words);
        let ghost after_title = spec_strings(features@);
        let ghost clip_part = spec_clip_features(ctx.clipboard);
        match &ctx.clipboard {
            Some(c) => {
                let words = split_whitespace(c.as_str());
                let stop = fingerprint_stop_words();
                let clip_words = select_keywords(&words, 2, &stop, MAX_CLIPBOARD_FEATURES);
                push_prefixed(&mut features, "clip:", &clip_words);
            },
            None => {
                assert(spec_strings(features@) =~= after_title + Seq::<Seq<char>>::empty());
            },
        }
        assert(spec_strings(features@) =~= after_title + clip_part);
        let ghost after_clip = spec_strings(features@);
        features.push(join2("bundle:", ctx.app.bundle_id.as_str()));
        assert(spec_strings(features@) =~= after_clip + seq!["bundle:"@ + ctx.app.bundle_id@]);
        let ghost after_bundle = spec_strings(features@);
        let idle_state = if ctx.idle_ms < 5000 {
            "active"
        } else if ctx.idle_ms < 30000 {
            "short_idle"
        } else {
            "long_idle"
        };
        assert(idle_state@ == spec_idle_state(ctx.idle_ms));
        features.push(join2("idle:", idle_state));
        assert(spec_strings(features@) =~= after_bundle + seq!["idle:"@ + spec_idle_state(ctx.idle_ms)]);
        features
    }

    /// Hash of one feature.
    pub fn hash_feature(&self, feature: &str) -> (h: u64)
        ensures
            h == spec_std_hash(feature@),
    {
        std_hash(feature)
    }

    /// SimHash of a list of features (see `spec_is_simhash`).
    pub fn compute_simhash(&self, features: &Vec<String>) -> (r: u64)
        ensures
            spec_is_simhash(r, self.hash_weights@, spec_feature_hashes(spec_strings(features@))),
    {
        simhash_of(&self.hash_weights, features)
    }

    /// Similarity of two hashes, in sixty-fourths: the number of bit
    /// positions in which they agree.
    pub fn similarity(hash1: u64, hash2: u64) -> (s: u32)
        ensures
            s == spec_matching_bits(hash1, hash2),
            s <= 64,
    {
        let d = count_ones(hash1 ^ hash2);
        proof {
            lemma_ones_bound(hash1 ^ hash2, 64);
        }
        64 - d
    }

    /// Similarity (in sixty-fourths) of a fingerprint to a cluster centroid.
    pub fn similarity_to_cluster(&self, fp: &ContextFingerprint, cluster_centroid: u64) -> (s: u32)
        ensures
            s == spec_matching_bits(fp.simhash, cluster_centroid),
    {
        Self::similarity(fp.simhash, cluster_centroid)
    }

    /// The fingerprint of a context taken at `now_ms`: the SimHash of its
    /// features, with the application name as domain.
    pub fn generate_at(&self, ctx: &Context, now_ms: u64) -> (fp: ContextFingerprint)
        ensures
            spec_strings(fp.features@) == spec_context_features(*ctx),
            spec_is_simhash(fp.simhash, self.hash_weights@, spec_feature_hashes(spec_context_features(*ctx))),
            fp.domain@ == ctx.app.name@,
            fp.generated_at_ms == now_ms,
    {
        let features = self.extract_features(ctx);
        let simhash = self.compute_simhash(&features);
        ContextFingerprint {
            simhash,
            domain: ctx.app.name.clone(),
            features,
            generated_at_ms: now_ms,
        }
    }
}

impl FingerprintGenerator {
    /// The fingerprint of a context, stamped with the current time.
    pub fn generate(&self, ctx: &Context) -> (fp: ContextFingerprint)
        ensures
            spec_strings(fp.features@) == spec_context_features(*ctx),
            spec_is_simhash(fp.simhash, self.hash_weights@, spec_feature_hashes(spec_context_features(*ctx))),
            fp.domain@ == ctx.app.name@,
    {
        let now = unix_time_millis();
        self.generate_at(ctx, now)
    }
}

/// Whether a fingerprint is older than `max_age_ms` at `now_ms`; one
/// stamped after `now_ms` is not.
pub open spec fn spec_stale_at(fp: ContextFingerprint, now_ms: u64, max_age_ms: u64) -> bool {
    now_ms >= fp.generated_at_ms && now_ms - fp.generated_at_ms > max_age_ms
}

impl ContextFingerprint {
    /// Similarity (in sixty-fourths) to another fingerprint.
    pub fn similarity_to(&self, other: &ContextFingerprint) -> (s: u32)
        ensures
            s == spec_matching_bits(self.simhash, other.simhash),
    {
        FingerprintGenerator::similarity(self.simhash, other.simhash)
    }

    /// Whether the similarity to another fingerprint reaches a threshold
    /// given in sixty-fourths.
    pub fn is_similar_to(&self, other: &ContextFingerprint, threshold: u32) -> (b: bool)
        ensures
            b == (spec_matching_bits(self.simhash, other.simhash) >= threshold),
    {
        self.similarity_to(other) >= threshold
    }

    /// Age of the fingerprint at `now_ms`, in milliseconds.
    pub fn age_at(&self, now_ms: u64) -> (age: u64)
        requires
            now_ms >= self.generated_at_ms,
        ensures
            age == now_ms - self.generated_at_ms,
    {
        now_ms - self.generated_at_ms
    }

    /// Whether the fingerprint is older than `max_age_ms` at `now_ms`.
    pub fn is_stale_at(&self, now_ms: u64, max_age_ms: u64) -> (b: bool)
        requires
            now_ms >= self.generated_at_ms,
        ensures
            b == (now_ms - self.generated_at_ms > max_age_ms),
    {
        self.age_at(now_ms) > max_age_ms
    }

    /// Whether the fingerprint is older than `max_age_ms` now; a fingerprint
    /// stamped after the clock's reading has age 0.
    pub fn is_stale(&self, max_age_ms: u64) -> (b: bool)
        ensures
            exists|now_ms: u64| b == #[trigger] spec_stale_at(*self, now_ms, max_age_ms),
    {
        let now_ms = unix_time_millis();
        if now_ms < self.generated_at_ms {
            assert(!spec_stale_at(*self, now_ms, max_age_ms));
            return false;
        }
        let b = self.is_stale_at(now_ms, max_age_ms);
        assert(b == spec_stale_at(*self, now_ms, max_age_ms));
        b
    }
}

proof fn lemma_ones_zero(n: nat)
    requires
        n <= 64,
    ensures
        spec_ones(0u64, n) == 0,
    decreases n,
{
    if n > 0 {
        lemma_ones_zero((n - 1) as nat);
        lemma_zero_bits((n - 1) as u64);
    }
}

/// Similarity is symmetric, and a hash agrees with itself on all 64 bits.
pub proof fn lemma_similarity_laws(a: u64, b: u64)
    ensures
        spec_matching_bits(a, b) == spec_matching_bits(b, a),
        spec_matching_bits(a, a) == 64,
        spec_matching_bits(a, b) <= 64,
{
    assert(a ^ b == b ^ a) by (bit_vector);
    assert(a ^ a == 0u64) by (bit_vector);
    lemma_ones_zero(64);
    lemma_ones_bound(a ^ b, 64);
}

} // verus!

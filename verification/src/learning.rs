//! Outcomes of suggestions, as the learning system records them.
use vstd::prelude::*;

verus! {

/// What the user did with a suggestion.
#[derive(Debug, Clone)]
pub enum Outcome {
    Used { helpful: bool, reverted: bool, time_to_flow: Option<std::time::Duration> },
    Ignored,
    Dismissed,
}

/// The feedback given on a generated artefact.
#[derive(Debug, Clone, Copy, PartialEq, Eq, Structural)]
pub enum FeedbackOutcome {
    Positive,
    Negative,
    Neutral,
}

impl FeedbackOutcome {
    /// The outcome of a yes/no answer on whether the artefact helped.
    pub fn from_helpful(helpful: bool) -> (o: FeedbackOutcome)
        ensures
            helpful ==> o == FeedbackOutcome::Positive,
            !helpful ==> o == FeedbackOutcome::Negative,
    {
        if helpful { FeedbackOutcome::Positive } else { FeedbackOutcome::Negative }
    }
}

/// Counts of the feedback given on artefacts. The success rate is the
/// positive count over the total.
#[derive(Debug, Clone, Copy, PartialEq, Eq, Structural)]
pub struct FeedbackMetrics {
    pub total_feedback: u64,
    pub positive_count: u64,
    pub negative_count: u64,
    pub neutral_count: u64,
}

/// One more, stopping at the largest value.
pub open spec fn spec_bump(x: u64) -> u64 {
    if x < u64::MAX { (x + 1) as u64 } else { x }
}

fn bump(x: u64) -> (y: u64)
    ensures
        y == spec_bump(x),
{
    if x < u64::MAX { x + 1 } else { x }
}

impl FeedbackMetrics {
    /// No feedback yet.
    pub fn new() -> (m: Self)
        ensures
            m == (FeedbackMetrics { total_feedback: 0, positive_count: 0, negative_count: 0, neutral_count: 0 }),
    {
        FeedbackMetrics { total_feedback: 0, positive_count: 0, negative_count: 0, neutral_count: 0 }
    }

    /// Counts one more feedback, in the total and in its kind.
    pub fn record_feedback(&mut self, outcome: FeedbackOutcome)
        ensures
            *final(self) == spec_record_feedback(*old(self), outcome),
    {
        self.total_feedback = bump(self.total_feedback);
        match outcome {
            FeedbackOutcome::Positive => { self.positive_count = bump(self.positive_count); },
            FeedbackOutcome::Negative => { self.negative_count = bump(self.negative_count); },
            FeedbackOutcome::Neutral => { self.neutral_count = bump(self.neutral_count); },
        }
    }
}

/// The counts after one more feedback: the total and its kind grow by one.
pub open spec fn spec_record_feedback(m: FeedbackMetrics, outcome: FeedbackOutcome) -> FeedbackMetrics {
    FeedbackMetrics {
        total_feedback: spec_bump(m.total_feedback),
        positive_count: if outcome == FeedbackOutcome::Positive { spec_bump(m.positive_count) } else { m.positive_count },
        negative_count: if outcome == FeedbackOutcome::Negative { spec_bump(m.negative_count) } else { m.negative_count },
        neutral_count: if outcome == FeedbackOutcome::Neutral { spec_bump(m.neutral_count) } else { m.neutral_count },
    }
}

/// Each feedback is counted once, in its kind: while the total does not
/// saturate, the kinds add up to the total.
pub proof fn lemma_feedback_kinds_add_up(m: FeedbackMetrics, outcome: FeedbackOutcome)
    requires
        m.positive_count + m.negative_count + m.neutral_count == m.total_feedback,
        m.total_feedback < u64::MAX,
    ensures
        ({
            let a = spec_record_feedback(m, outcome);
            a.positive_count + a.negative_count + a.neutral_count == a.total_feedback
        }),
{
}

/// How many outcomes of each kind: used (and among them helpful and
/// reverted), ignored, dismissed.
#[derive(Debug, Clone, Copy, PartialEq, Eq, Structural)]
pub struct OutcomeCounts {
    pub used_count: usize,
    pub helpful_count: usize,
    pub reverted_count: usize,
    pub ignored_count: usize,
    pub dismissed_count: usize,
}

/// The counts of the outcomes.
pub open spec fn spec_outcome_counts(outcomes: Seq<Outcome>) -> OutcomeCounts
    decreases outcomes.len(),
{
    if outcomes.len() == 0 {
        OutcomeCounts { used_count: 0, helpful_count: 0, reverted_count: 0, ignored_count: 0, dismissed_count: 0 }
    } else {
        let c = spec_outcome_counts(outcomes.drop_last());
        match outcomes.last() {
            Outcome::Used { helpful, reverted, .. } => OutcomeCounts {
                used_count: (c.used_count + 1) as usize,
                helpful_count: if helpful { (c.helpful_count + 1) as usize } else { c.helpful_count },
                reverted_count: if reverted { (c.reverted_count + 1) as usize } else { c.reverted_count },
                ..c
            },
            Outcome::Ignored => OutcomeCounts { ignored_count: (c.ignored_count + 1) as usize, ..c },
            Outcome::Dismissed => OutcomeCounts { dismissed_count: (c.dismissed_count + 1) as usize, ..c },
        }
    }
}

proof fn lemma_counts_bounded(outcomes: Seq<Outcome>)
    requires
        outcomes.len() <= usize::MAX,
    ensures
        ({
            let c = spec_outcome_counts(outcomes);
            &&& c.used_count + c.ignored_count + c.dismissed_count == outcomes.len()
            &&& c.helpful_count <= c.used_count
            &&& c.reverted_count <= c.used_count
        }),
    decreases outcomes.len(),
{
    if outcomes.len() > 0 {
        lemma_counts_bounded(outcomes.drop_last());
    }
}

/// Counts the outcomes of each kind (the reward metrics are taken from them).
pub fn count_outcomes(outcomes: &[Outcome]) -> (c: OutcomeCounts)
    ensures
        c == spec_outcome_counts(outcomes@),
        c.used_count + c.ignored_count + c.dismissed_count == outcomes@.len(),
{
    let mut c = OutcomeCounts { used_count: 0, helpful_count: 0, reverted_count: 0, ignored_count: 0, dismissed_count: 0 };
    let mut i: usize = 0;
    while i < outcomes.len()
        invariant
            i <= outcomes@.len(),
            c == spec_outcome_counts(outcomes@.take(i as int)),
        decreases outcomes@.len() - i,
    {
        proof {
            let t = outcomes@.take(i + 1);
            assert(t.drop_last() =~= outcomes@.take(i as int));
            assert(t.last() == outcomes@[i as int]);
            lemma_counts_bounded(outcomes@.take(i as int));
        }
        match &outcomes[i] {
            Outcome::Used { helpful, reverted, .. } => {
                c.used_count = c.used_count + 1;
                if *helpful {
                    c.helpful_count = c.helpful_count + 1;
                }
                if *reverted {
                    c.reverted_count = c.reverted_count + 1;
                }
            },
            Outcome::Ignored => {
                c.ignored_count = c.ignored_count + 1;
            },
            Outcome::Dismissed => {
                c.dismissed_count = c.dismissed_count + 1;
            },
        }
        i = i + 1;
    }
    assert(outcomes@.take(outcomes@.len() as int) =~= outcomes@);
    proof {
        lemma_counts_bounded(outcomes@);
    }
    c
}

/// How many leading times are before the cutoff.
pub open spec fn spec_leading_before(ts: Seq<u64>, cutoff: u64) -> nat
    decreases ts.len(),
{
    if ts.len() == 0 || ts[0] >= cutoff { 0 } else { 1 + spec_leading_before(ts.drop_first(), cutoff) }
}

proof fn lemma_leading_before_bound(ts: Seq<u64>, cutoff: u64)
    ensures
        spec_leading_before(ts, cutoff) <= ts.len(),
    decreases ts.len(),
{
    if ts.len() > 0 && ts[0] < cutoff {
        lemma_leading_before_bound(ts.drop_first(), cutoff);
    }
}

/// `now - window`, or 0 when the window reaches back before 0.
pub open spec fn spec_cutoff(now: u64, window: u64) -> u64 {
    if now >= window { (now - window) as u64 } else { 0 }
}

/// The rate limit of trust updates: at most `max_events` updates within a
/// sliding window of `window_ms` milliseconds.
pub struct TrustRateLimiter {
    window_ms: u64,
    max_events: usize,
    recent: Vec<u64>,
}

impl TrustRateLimiter {
    pub closed spec fn window(&self) -> u64 {
        self.window_ms
    }

    pub closed spec fn max(&self) -> usize {
        self.max_events
    }

    /// When the recent updates happened, oldest first.
    pub closed spec fn recent(&self) -> Seq<u64> {
        self.recent@
    }

    /// A limiter of `max_events` updates per `window_ms`.
    pub fn new(window_ms: u64, max_events: usize) -> (l: Self)
        ensures
            l.window() == window_ms,
            l.max() == max_events,
            l.recent().len() == 0,
    {
        TrustRateLimiter { window_ms, max_events, recent: Vec::new() }
    }

    /// Ten updates per minute.
    pub fn default_limits() -> (l: Self)
        ensures
            l.window() == 60_000,
            l.max() == 10,
            l.recent().len() == 0,
    {
        Self::new(60_000, 10)
    }

    /// An update at `now`: the updates older than the window leave the
    /// front of the list; the update is admitted (and remembered) when
    /// fewer than the maximum remain, and refused otherwise.
    pub fn admit_at(&mut self, now: u64) -> (admitted: bool)
        ensures
            final(self).window() == old(self).window(),
            final(self).max() == old(self).max(),
            ({
                let kept = old(self).recent().skip(spec_leading_before(old(self).recent(), spec_cutoff(now, old(self).window())) as int);
                &&& admitted == (kept.len() < old(self).max())
                &&& final(self).recent() == if admitted { kept.push(now) } else { kept }
            }),
    {
        let cutoff: u64 = if now >= self.window_ms { now - self.window_ms } else { 0 };
        let ghost r0 = self.recent@;
        proof {
            lemma_leading_before_bound(r0, cutoff);
        }
        let mut k: usize = 0;
        assert(r0.skip(0) =~= r0);
        while k < self.recent.len() && self.recent[k] < cutoff
            invariant
                self.recent@ == r0,
                k <= r0.len(),
                spec_leading_before(r0, cutoff) == k + spec_leading_before(r0.skip(k as int), cutoff),
            decreases r0.len() - k,
        {
            proof {
                assert(r0.skip(k as int).drop_first() =~= r0.skip(k + 1));
                assert(r0.skip(k as int)[0] == r0[k as int]);
            }
            k = k + 1;
        }
        proof {
            if k < r0.len() {
                assert(r0.skip(k as int)[0] == r0[k as int]);
            } else {
                assert(r0.skip(k as int).len() == 0);
            }
            assert(spec_leading_before(r0, cutoff) == k);
        }
        let mut kept: Vec<u64> = Vec::new();
        let mut j: usize = k;
        while j < self.recent.len()
            invariant
                self.recent@ == r0,
                k <= j <= r0.len(),
                kept@ == r0.subrange(k as int, j as int),
            decreases r0.len() - j,
        {
            kept.push(self.recent[j]);
            assert(r0.subrange(k as int, j + 1) =~= r0.subrange(k as int, j as int).push(r0[j as int]));
            j = j + 1;
        }
        assert(kept@ =~= r0.skip(k as int));
        let admitted = kept.len() < self.max_events;
        if admitted {
            kept.push(now);
        }
        self.recent = kept;
        admitted
    }
}

/// While nothing else changes them, the recent updates of a limiter never
/// exceed its maximum.
pub proof fn lemma_rate_limit_holds(recent: Seq<u64>, max: usize, now: u64, window: u64)
    requires
        recent.len() <= max,
    ensures
        ({
            let kept = recent.skip(spec_leading_before(recent, spec_cutoff(now, window)) as int);
            (if kept.len() < max { kept.push(now) } else { kept }).len() <= max
        }),
{
    lemma_leading_before_bound(recent, spec_cutoff(now, window));
}

} // verus!

//! The time-boxed measurement harness: latency series, trial/time budgets,
//! and trusted access to the monotonic clock.
//!
//! A harness run repeats a timed operation until either the trial limit is
//! reached or the accumulated wall-clock time exceeds the time budget. The
//! budget is checked only after a full trial completes, so a run may exceed
//! the budget by at most the duration of its final trial, and the
//! triggering trial's latency is always recorded.

use vstd::prelude::*;

verus! {

#[verifier::external_type_specification]
#[verifier::external_body]
pub struct ExInstant(std::time::Instant);

/// Relies on std::time::Instant::now: an opaque reading of the monotonic
/// clock. Nothing is promised about its value.
#[verifier::external_body]
pub fn now_instant() -> std::time::Instant {
    std::time::Instant::now()
}

/// Relies on std::time::Instant::elapsed: the time since `start`, converted
/// to whole nanoseconds. Nothing is promised about its value; every
/// property of the harness holds for every latency the clock can report.
#[verifier::external_body]
pub fn elapsed_nanos(start: &std::time::Instant) -> u64 {
    start.elapsed().as_nanos() as u64
}

/// Sum of a latency series, in nanoseconds.
pub open spec fn sum_ns(s: Seq<u64>) -> int
    decreases s.len(),
{
    if s.len() == 0 {
        0
    } else {
        sum_ns(s.drop_last()) + s.last()
    }
}

/// An append-only sequence of per-trial latencies (nanosecond resolution)
/// for one benchmark configuration.
pub struct TrialSeries {
    samples: Vec<u64>,
}

impl TrialSeries {
    /// The recorded latencies, in trial order.
    pub closed spec fn view(&self) -> Seq<u64> {
        self.samples@
    }

    /// An empty series.
    pub fn new() -> (r: TrialSeries)
        ensures
            r@ =~= Seq::<u64>::empty(),
    {
        TrialSeries { samples: Vec::new() }
    }

    /// Number of recorded trials.
    pub fn len(&self) -> (r: usize)
        ensures
            r == self@.len(),
    {
        self.samples.len()
    }

    /// Appends one trial's latency.
    pub fn record(&mut self, ns: u64)
        ensures
            final(self)@ =~= old(self)@.push(ns),
    {
        self.samples.push(ns);
    }

    /// Read access to the raw samples, for persistence.
    pub fn samples(&self) -> (r: &Vec<u64>)
        ensures
            r@ == self@,
    {
        &self.samples
    }
}

/// The shared stop condition of every benchmark: at most `trial_limit`
/// trials, and no further trial once the accumulated time exceeds
/// `time_budget_ns`.
#[derive(Clone, Copy, Debug, PartialEq, Eq, Structural)]
pub struct BenchBudget {
    pub trial_limit: usize,
    pub time_budget_ns: u64,
}

/// Why a harness run stopped.
#[derive(Clone, Copy, Debug, PartialEq, Eq, Structural)]
pub enum StopReason {
    /// Every budgeted trial was run without exhausting the time budget.
    TrialLimit,
    /// The accumulated time passed the budget, after the triggering trial
    /// was recorded.
    TimeBudget,
}

/// The harness stop-condition over an ordered sequence of observed
/// latencies, exactly as the timed benchmark drivers apply it to the
/// clock: record trials in order, and stop after the trial limit, after
/// the latency supply is exhausted, or after the first trial that pushes
/// the accumulated time past the budget — whose latency is still
/// recorded, never discarded.
pub fn run_harness(latencies: &Vec<u64>, budget: &BenchBudget) -> (r: (TrialSeries, StopReason))
    ensures
        r.0@ =~= latencies@.take(r.0@.len() as int),
        r.0@.len() <= budget.trial_limit,
        r.0@.len() <= latencies@.len(),
        r.0@.len() > 0 ==> sum_ns(r.0@) - r.0@.last() <= budget.time_budget_ns,
        sum_ns(r.0@) <= budget.time_budget_ns ==> r.0@.len() == budget.trial_limit || r.0@.len()
            == latencies@.len(),
        r.1 == StopReason::TimeBudget ==> sum_ns(r.0@) > budget.time_budget_ns,
        r.1 == StopReason::TrialLimit ==> sum_ns(r.0@) <= budget.time_budget_ns,
{
    let mut series = TrialSeries::new();
    let mut total: u128 = 0;
    let mut stop = false;
    let mut c: usize = 0;
    while c < budget.trial_limit && c < latencies.len() && !stop
        invariant
            c <= budget.trial_limit,
            c <= latencies@.len(),
            series@.len() == c,
            series@ =~= latencies@.take(c as int),
            total == sum_ns(series@),
            !stop ==> total <= budget.time_budget_ns,
            stop ==> total > budget.time_budget_ns,
            c > 0 ==> sum_ns(series@) - series@.last() <= budget.time_budget_ns,
        decreases budget.trial_limit - c,
    {
        let ns = latencies[c];
        proof {
            lemma_sum_ns_push(series@, ns);
            lemma_sum_ns_nonneg(series@);
            assert(latencies@.take(c + 1).drop_last() =~= latencies@.take(c as int));
        }
        series.record(ns);
        total = total + ns as u128;
        if total > budget.time_budget_ns as u128 {
            stop = true;
        }
        c = c + 1;
    }
    let reason = if stop {
        StopReason::TimeBudget
    } else {
        StopReason::TrialLimit
    };
    (series, reason)
}

/// Total recorded time across a group of series, in nanoseconds.
pub open spec fn total_ns_of(series: Seq<TrialSeries>) -> int
    decreases series.len(),
{
    if series.len() == 0 {
        0
    } else {
        total_ns_of(series.drop_last()) + sum_ns(series.last()@)
    }
}

/// Replacing one series changes the group total by the difference of the
/// two series' sums.
pub proof fn lemma_total_ns_update(series: Seq<TrialSeries>, n: int, v: TrialSeries)
    requires
        0 <= n < series.len(),
    ensures
        total_ns_of(series.update(n, v)) == total_ns_of(series) - sum_ns(series[n]@) + sum_ns(v@),
    decreases series.len(),
{
    let updated = series.update(n, v);
    if n == series.len() - 1 {
        assert(updated.drop_last() =~= series.drop_last());
        assert(updated.last() == v);
    } else {
        assert(updated.drop_last() =~= series.drop_last().update(n, v));
        assert(updated.last() == series.last());
        lemma_total_ns_update(series.drop_last(), n, v);
    }
}

/// Appending an empty series leaves the group total unchanged.
pub proof fn lemma_total_ns_push_empty(series: Seq<TrialSeries>, v: TrialSeries)
    requires
        v@.len() == 0,
    ensures
        total_ns_of(series.push(v)) == total_ns_of(series),
{
    assert(series.push(v).drop_last() =~= series);
    assert(series.push(v).last() == v);
}

/// Total recorded time across a group of series, counting only the first
/// `upto` samples of each.
pub open spec fn total_ns_of_prefix(series: Seq<TrialSeries>, upto: int) -> int
    decreases series.len(),
{
    if series.len() == 0 {
        0
    } else {
        total_ns_of_prefix(series.drop_last(), upto) + sum_ns(series.last()@.take(upto))
    }
}

/// When the first `upto` samples of every series of one group are exactly
/// another group's full series, the prefix total of the first equals the
/// total of the second.
pub proof fn lemma_total_ns_prefix_agrees(s1: Seq<TrialSeries>, s2: Seq<TrialSeries>, upto: int)
    requires
        s1.len() == s2.len(),
        forall|n: int| 0 <= n < s1.len() ==> (#[trigger] s1[n])@.take(upto) == s2[n]@,
    ensures
        total_ns_of_prefix(s1, upto) == total_ns_of(s2),
    decreases s1.len(),
{
    if s1.len() > 0 {
        assert(forall|n: int| 0 <= n < s1.drop_last().len() ==> (#[trigger] s1.drop_last()[n])
            == s1[n] && s2.drop_last()[n] == s2[n]);
        lemma_total_ns_prefix_agrees(s1.drop_last(), s2.drop_last(), upto);
        assert(s1.last()@.take(upto) == s2[s1.len() - 1]@);
    }
}

/// Appending a sample grows the sum by that sample.
pub proof fn lemma_sum_ns_push(s: Seq<u64>, ns: u64)
    ensures
        sum_ns(s.push(ns)) == sum_ns(s) + ns,
{
    assert(s.push(ns).drop_last() =~= s);
    assert(s.push(ns).last() == ns);
}

/// Sums of latency series are never negative.
pub proof fn lemma_sum_ns_nonneg(s: Seq<u64>)
    ensures
        sum_ns(s) >= 0,
    decreases s.len(),
{
    if s.len() > 0 {
        lemma_sum_ns_nonneg(s.drop_last());
    }
}

} // verus!

//! The benchmark drivers over the verified point index: repeated
//! construction and teardown under a shared budget, full-extent queries
//! with a proved completeness check, and preset-envelope queries against a
//! synthesized corpus.

use vstd::prelude::*;

use crate::envelope::Envelope;
use crate::harness::{
    elapsed_nanos, lemma_sum_ns_nonneg, lemma_sum_ns_push, lemma_total_ns_push_empty,
    lemma_total_ns_update, now_instant, sum_ns, total_ns_of, BenchBudget, StopReason, TrialSeries,
};
use crate::index::{lemma_count_in_all, lemma_filter_all, Element, PointIndex};

verus! {

/// A fatal benchmark defect. A corrupted measurement must not silently
/// produce misleading numbers, so these abort the run instead of being
/// retried.
#[derive(Clone, Copy, Debug, PartialEq, Eq, Structural)]
pub enum BenchError {
    /// The dataset is empty, so the structure under test would be too.
    EmptyDataset,
    /// A query returned a cardinality other than the one its envelope was
    /// synthesized for.
    CountMismatch,
}

/// Everything a build-benchmark run yields: the two latency series, one
/// memory-footprint sample, and a live index rebuilt after the last
/// measured teardown.
pub struct BuildBenchResult<P> {
    pub build_series: TrialSeries,
    pub teardown_series: TrialSeries,
    pub footprint: Option<usize>,
    pub index: PointIndex<P>,
}

/// An element-wise copy of the input records, made outside the timed
/// region of each trial.
fn copy_elements<P: Copy>(data: &Vec<Element<P>>) -> (r: Vec<Element<P>>)
    ensures
        r@ =~= data@,
{
    let mut r: Vec<Element<P>> = Vec::new();
    let mut i: usize = 0;
    while i < data.len()
        invariant
            i <= data@.len(),
            r@ =~= data@.take(i as int),
        decreases data@.len() - i,
    {
        r.push(data[i]);
        i = i + 1;
    }
    proof {
        assert(data@.take(data@.len() as int) =~= data@);
    }
    r
}

/// Consumes the index so that its teardown happens between two clock
/// readings.
fn teardown<P>(index: PointIndex<P>) {
    let _ = index;
}

/// The harness stop condition never discards a trial: up to the final
/// trial, the accumulated time stays within the budget, so a full series
/// overshoots the budget by at most its last sample.
pub open spec fn series_within_budget(s: Seq<u64>, budget: BenchBudget) -> bool {
    s.len() > 0 ==> sum_ns(s) - s.last() <= budget.time_budget_ns
}

/// The same inclusive-overshoot bound for a benchmark that measures two
/// operations per trial under one shared budget.
pub open spec fn two_series_within_budget(b: Seq<u64>, t: Seq<u64>, budget: BenchBudget) -> bool {
    b.len() > 0 && t.len() > 0 ==> sum_ns(b) + sum_ns(t) - b.last() - t.last()
        <= budget.time_budget_ns
}

/// Repeatedly times index construction and immediate teardown as two
/// independent series under one shared budget, samples the memory
/// footprint once, and finally rebuilds the index once more to hand it
/// back live.
pub fn bench_build<P: Copy>(data: &Vec<Element<P>>, budget: &BenchBudget) -> (r: Result<
    BuildBenchResult<P>,
    BenchError,
>)
    requires
        budget.trial_limit >= 1,
    ensures
        match r {
            Ok(out) => {
                &&& data@.len() > 0
                &&& out.index@ == data@
                &&& out.build_series@.len() == out.teardown_series@.len()
                &&& 1 <= out.build_series@.len() <= budget.trial_limit
                &&& two_series_within_budget(
                    out.build_series@,
                    out.teardown_series@,
                    *budget,
                )
                &&& (sum_ns(out.build_series@) + sum_ns(out.teardown_series@)
                    <= budget.time_budget_ns ==> out.build_series@.len() == budget.trial_limit)
                &&& match out.footprint {
                    Some(n) => n == data@.len() * vstd::layout::size_of::<Element<P>>(),
                    None => data@.len() * vstd::layout::size_of::<Element<P>>() > usize::MAX,
                }
            },
            Err(e) => e == BenchError::EmptyDataset && data@.len() == 0,
        },
{
    if data.len() == 0 {
        return Err(BenchError::EmptyDataset);
    }
    let mut build_series = TrialSeries::new();
    let mut teardown_series = TrialSeries::new();
    let mut footprint: Option<usize> = Option::None;
    let mut total: u128 = 0;
    let mut stop = false;
    let mut c: usize = 0;
    while c < budget.trial_limit && !stop
        invariant
            budget.trial_limit >= 1,
            data@.len() > 0,
            c <= budget.trial_limit,
            build_series@.len() == c,
            teardown_series@.len() == c,
            total == sum_ns(build_series@) + sum_ns(teardown_series@),
            !stop ==> total <= budget.time_budget_ns,
            stop ==> total > budget.time_budget_ns,
            c > 0 ==> two_series_within_budget(build_series@, teardown_series@, *budget),
            c > 0 ==> match footprint {
                Some(n) => n == data@.len() * vstd::layout::size_of::<Element<P>>(),
                None => data@.len() * vstd::layout::size_of::<Element<P>>() > usize::MAX,
            },
        decreases budget.trial_limit - c,
    {
        let data_c = copy_elements(data);
        let t0 = now_instant();
        let idx = PointIndex::build(data_c);
        let build_ns = elapsed_nanos(&t0);
        if c == 0 {
            footprint = idx.footprint_bytes();
        }
        proof {
            lemma_sum_ns_push(build_series@, build_ns);
        }
        build_series.record(build_ns);
        let t1 = now_instant();
        teardown(idx);
        let tear_ns = elapsed_nanos(&t1);
        proof {
            lemma_sum_ns_push(teardown_series@, tear_ns);
            lemma_sum_ns_nonneg(build_series@);
            lemma_sum_ns_nonneg(teardown_series@);
        }
        teardown_series.record(tear_ns);
        total = total + build_ns as u128 + tear_ns as u128;
        if total > budget.time_budget_ns as u128 {
            stop = true;
        }
        c = c + 1;
    }
    let data_c = copy_elements(data);
    let index = PointIndex::build(data_c);
    Ok(BuildBenchResult { build_series, teardown_series, footprint, index })
}

/// Repeatedly times a query over the index's own extent. Completeness of
/// each trial's result is proved rather than checked: the extent contains
/// every element, so the query returns all of them.
pub fn bench_queryall<P: Copy>(index: &PointIndex<P>, budget: &BenchBudget) -> (r: (
    TrialSeries,
    StopReason,
))
    requires
        budget.trial_limit >= 1,
    ensures
        1 <= r.0@.len() <= budget.trial_limit,
        series_within_budget(r.0@, *budget),
        sum_ns(r.0@) <= budget.time_budget_ns ==> r.0@.len() == budget.trial_limit,
        r.1 == StopReason::TimeBudget ==> sum_ns(r.0@) > budget.time_budget_ns,
        r.1 == StopReason::TrialLimit ==> r.0@.len() == budget.trial_limit,
{
    let env = if index.count() == 0 {
        Envelope { minx: 0, maxx: 0, miny: 0, maxy: 0 }
    } else {
        index.extent()
    };
    proof {
        lemma_count_in_all(index@, env);
    }
    let mut series = TrialSeries::new();
    let mut total: u128 = 0;
    let mut stop = false;
    let mut c: usize = 0;
    while c < budget.trial_limit && !stop
        invariant
            budget.trial_limit >= 1,
            forall|i: int| 0 <= i < index@.len() ==> env.spec_contains(#[trigger] index@[i].pos),
            c <= budget.trial_limit,
            series@.len() == c,
            total == sum_ns(series@),
            !stop ==> total <= budget.time_budget_ns,
            stop ==> total > budget.time_budget_ns,
            c > 0 ==> series_within_budget(series@, *budget),
        decreases budget.trial_limit - c,
    {
        let t0 = now_instant();
        let result = index.query(&env);
        let ns = elapsed_nanos(&t0);
        proof {
            lemma_filter_all(index@, env);
            lemma_sum_ns_push(series@, ns);
            lemma_sum_ns_nonneg(series@);
        }
        // Completeness holds by proof; a mismatch here is impossible.
        assert(result@.len() == index@.len());
        series.record(ns);
        total = total + ns as u128;
        if total > budget.time_budget_ns as u128 {
            stop = true;
        }
        c = c + 1;
    }
    let reason = if stop {
        StopReason::TimeBudget
    } else {
        StopReason::TrialLimit
    };
    (series, reason)
}

/// Every envelope of every tier of the corpus matches its tier's expected
/// cardinality against the index.
pub open spec fn corpus_matches<P>(
    index: PointIndex<P>,
    corpus: Seq<Vec<Envelope>>,
    expected: Seq<usize>,
) -> bool {
    forall|n: int, i: int|
        0 <= n < corpus.len() && 0 <= i < corpus[n]@.len() ==> index.spec_count_in(
            #[trigger] corpus[n]@[i],
        ) == expected[n]
}

/// Repeatedly queries the index with the preset envelope corpus: per
/// trial, one query per envelope slot and tier, each latency appended to
/// that tier's series, with the shared budget applied to the sum of all
/// query times of a trial. A query whose cardinality differs from its
/// tier's expected count is a fatal mismatch; the run succeeds exactly
/// when the whole corpus matches.
pub fn bench_querypre<P: Copy>(
    index: &PointIndex<P>,
    corpus: &Vec<Vec<Envelope>>,
    expected: &Vec<usize>,
    slots: usize,
    budget: &BenchBudget,
) -> (r: Result<(Vec<TrialSeries>, usize), BenchError>)
    requires
        expected@.len() == corpus@.len(),
        forall|n: int| 0 <= n < corpus@.len() ==> (#[trigger] corpus@[n])@.len() == slots,
        budget.trial_limit >= 1,
    ensures
        match r {
            Ok(out) => {
                &&& corpus_matches(*index, corpus@, expected@)
                &&& out.0@.len() == corpus@.len()
                &&& 1 <= out.1 <= budget.trial_limit
                &&& forall|n: int| 0 <= n < out.0@.len() ==> (#[trigger] out.0@[n])@.len()
                    == out.1 * slots
                &&& crate::harness::total_ns_of_prefix(out.0@, (out.1 - 1) * slots)
                    <= budget.time_budget_ns
                &&& (total_ns_of(out.0@) <= budget.time_budget_ns ==> out.1
                    == budget.trial_limit)
            },
            Err(e) => e == BenchError::CountMismatch && !corpus_matches(
                *index,
                corpus@,
                expected@,
            ),
        },
{
    let tiers = corpus.len();
    let mut series: Vec<TrialSeries> = Vec::new();
    let mut k: usize = 0;
    while k < tiers
        invariant
            k <= tiers,
            series@.len() == k,
            forall|n: int| 0 <= n < k ==> (#[trigger] series@[n])@.len() == 0,
            total_ns_of(series@) == 0,
        decreases tiers - k,
    {
        let fresh = TrialSeries::new();
        proof {
            lemma_total_ns_push_empty(series@, fresh);
        }
        series.push(fresh);
        k = k + 1;
    }
    let mut total: u128 = 0;
    let mut stop = false;
    let mut t: usize = 0;
    while t < budget.trial_limit && !stop
        invariant
            expected@.len() == corpus@.len(),
            corpus@.len() == tiers,
            forall|n: int| 0 <= n < corpus@.len() ==> (#[trigger] corpus@[n])@.len() == slots,
            budget.trial_limit >= 1,
            t <= budget.trial_limit,
            stop ==> t >= 1,
            series@.len() == tiers,
            forall|n: int| 0 <= n < tiers ==> (#[trigger] series@[n])@.len() == t * slots,
            t >= 1 ==> corpus_matches(*index, corpus@, expected@),
            total == total_ns_of(series@) || (total == u128::MAX && total_ns_of(series@)
                > u128::MAX),
            !stop ==> total <= budget.time_budget_ns,
            stop ==> total > budget.time_budget_ns,
            t >= 1 ==> crate::harness::total_ns_of_prefix(series@, (t - 1) * slots)
                <= budget.time_budget_ns,
        decreases budget.trial_limit - t,
    {
        let ghost snapshot = series@;
        let mut i: usize = 0;
        while i < slots
            invariant
                expected@.len() == corpus@.len(),
                corpus@.len() == tiers,
                forall|n: int| 0 <= n < corpus@.len() ==> (#[trigger] corpus@[n])@.len() == slots,
                i <= slots,
                series@.len() == tiers,
                forall|n: int| 0 <= n < tiers ==> (#[trigger] series@[n])@.len() == t * slots + i,
                t >= 1 ==> corpus_matches(*index, corpus@, expected@),
                forall|n: int, j: int|
                    0 <= n < corpus@.len() && 0 <= j < i ==> index.spec_count_in(
                        #[trigger] corpus@[n]@[j],
                    ) == expected@[n],
                total == total_ns_of(series@) || (total == u128::MAX && total_ns_of(series@)
                    > u128::MAX),
                snapshot.len() == tiers,
                forall|n: int| 0 <= n < tiers ==> (#[trigger] snapshot[n])@.len() == t * slots,
                forall|n: int| 0 <= n < tiers ==> (#[trigger] series@[n])@.take(t * slots)
                    == snapshot[n]@,
                total_ns_of(snapshot) <= budget.time_budget_ns,
            decreases slots - i,
        {
            let mut n: usize = 0;
            while n < tiers
                invariant
                    expected@.len() == corpus@.len(),
                    corpus@.len() == tiers,
                    forall|m: int| 0 <= m < corpus@.len() ==> (#[trigger] corpus@[m])@.len()
                        == slots,
                    i < slots,
                    n <= tiers,
                    series@.len() == tiers,
                    forall|m: int| 0 <= m < tiers ==> (#[trigger] series@[m])@.len() == t * slots
                        + i + (if m < n {
                        1int
                    } else {
                        0int
                    }),
                    t >= 1 ==> corpus_matches(*index, corpus@, expected@),
                    forall|m: int, j: int|
                        0 <= m < corpus@.len() && 0 <= j < i ==> index.spec_count_in(
                            #[trigger] corpus@[m]@[j],
                        ) == expected@[m],
                    forall|m: int|
                        0 <= m < n ==> index.spec_count_in(#[trigger] corpus@[m]@[i as int])
                            == expected@[m],
                    total == total_ns_of(series@) || (total == u128::MAX && total_ns_of(series@)
                        > u128::MAX),
                    snapshot.len() == tiers,
                    forall|m: int| 0 <= m < tiers ==> (#[trigger] snapshot[m])@.len() == t * slots,
                    forall|m: int| 0 <= m < tiers ==> (#[trigger] series@[m])@.take(t * slots)
                        == snapshot[m]@,
                    total_ns_of(snapshot) <= budget.time_budget_ns,
                decreases tiers - n,
            {
                let env = corpus[n][i];
                let t0 = now_instant();
                let result = index.query(&env);
                let ns = elapsed_nanos(&t0);
                proof {
                    crate::index::lemma_count_is_filter_len(index@, env);
                }
                if result.len() != expected[n] {
                    return Err(BenchError::CountMismatch);
                }
                let ghost pre = series@;
                series[n].record(ns);
                proof {
                    lemma_sum_ns_push(pre[n as int]@, ns);
                    lemma_total_ns_update(pre, n as int, series@[n as int]);
                    assert(series@[n as int]@.take(t * slots) =~= snapshot[n as int]@);
                }
                total = total.saturating_add(ns as u128);
                n = n + 1;
            }
            i = i + 1;
        }
        proof {
            crate::harness::lemma_total_ns_prefix_agrees(series@, snapshot, t * slots);
        }
        if total > budget.time_budget_ns as u128 {
            stop = true;
        }
        t = t + 1;
        proof {
            assert(t * slots == (t - 1) * slots + slots) by (nonlinear_arith)
                requires
                    t >= 1,
            ;
        }
    }
    Ok((series, t))
}

} // verus!

//! Benchmark drivers for the rstar R*-tree. The tree is opaque to the
//! verifier; the measurement loops, the budget discipline and the mismatch
//! handling around them are verified. Elements are identified points over
//! the library's fixed-point `i64` coordinates, which rstar indexes
//! natively, so query boxes can be built from the library's own envelopes.
//! The crate's object trait cannot be declared to the verifier, so the
//! element type cannot be left generic here.

use vstd::prelude::*;

use crate::bench::BenchError;
use crate::envelope::Envelope;
use crate::harness::{
    elapsed_nanos, lemma_sum_ns_nonneg, lemma_sum_ns_push, lemma_total_ns_push_empty,
    lemma_total_ns_update, now_instant, total_ns_of, BenchBudget, StopReason, TrialSeries,
};

verus! {

/// An opaque handle owning an rstar tree of identified fixed-point
/// positions. The tree type cannot be declared to the verifier directly
/// because its bounds name the crate's own object trait, so it is held in
/// a hidden field instead.
#[verifier::external_body]
pub struct RstarTree {
    inner: rstar::RTree<rstar::primitives::GeomWithData<[i64; 2], u32>>,
}

/// Number of objects held by a tree.
pub uninterp spec fn rstar_tree_count(t: RstarTree) -> nat;

/// Number of objects a query with the tree's own root envelope returns.
pub uninterp spec fn rstar_root_count(t: RstarTree) -> nat;

/// Number of objects a query with the box spanned by the given corners
/// returns.
pub uninterp spec fn rstar_corner_count(
    t: RstarTree,
    minx: i64,
    miny: i64,
    maxx: i64,
    maxy: i64,
) -> nat;

/// Relies on rstar::RTree::bulk_load: builds a tree holding exactly the
/// given `(x, y, id)` records.
#[verifier::external_body]
fn rstar_bulk_load(elements: Vec<(i64, i64, u32)>) -> (r: RstarTree)
    ensures
        rstar_tree_count(r) == elements@.len(),
{
    let geoms = elements
        .into_iter()
        .map(|e| rstar::primitives::GeomWithData::new([e.0, e.1], e.2))
        .collect();
    RstarTree { inner: rstar::RTree::bulk_load(geoms) }
}

/// Relies on rstar::RTree::size: the number of stored objects.
#[verifier::external_body]
fn rstar_size(tree: &RstarTree) -> (r: usize)
    ensures
        r == rstar_tree_count(*tree),
{
    tree.inner.size()
}

/// Relies on rstar::RTree::locate_in_envelope over the envelope of
/// rstar::RTree::root: the ids of all objects inside the root envelope, a
/// deterministic function of the tree.
#[verifier::external_body]
fn rstar_locate_root(tree: &RstarTree) -> (r: Vec<u32>)
    ensures
        r@.len() == rstar_root_count(*tree),
{
    tree.inner
        .locate_in_envelope(tree.inner.root().envelope())
        .map(|g| g.data)
        .collect()
}

/// Relies on rstar::RTree::locate_in_envelope over
/// rstar::AABB::from_corners: the ids of the objects inside the box
/// spanned by the corners, a deterministic function of the tree and the
/// corner coordinates.
#[verifier::external_body]
fn rstar_locate_corners(
    tree: &RstarTree,
    minx: i64,
    miny: i64,
    maxx: i64,
    maxy: i64,
) -> (r: Vec<u32>)
    ensures
        r@.len() == rstar_corner_count(*tree, minx, miny, maxx, maxy),
{
    tree.inner
        .locate_in_envelope(rstar::AABB::from_corners([minx, miny], [maxx, maxy]))
        .map(|g| g.data)
        .collect()
}

/// Consumes the tree so that its teardown happens between two clock
/// readings.
fn rstar_teardown(tree: RstarTree) {
    let _ = tree;
}

/// Everything an rstar build-benchmark run yields: the two latency series
/// and a live tree rebuilt after the last measured teardown. The memory
/// footprint of an rstar tree is sampled by traversing its node structure,
/// which must happen outside the verified library.
pub struct RstarBuildResult {
    pub build_series: TrialSeries,
    pub teardown_series: TrialSeries,
    pub tree: RstarTree,
}

/// Repeatedly times rstar bulk loading from a fresh copy of the input and
/// immediate teardown, as two series under one shared budget, and rebuilds
/// the tree once more to hand it back live.
pub fn bench_build_rstar(data: &Vec<(i64, i64, u32)>, budget: &BenchBudget) -> (r: Result<
    RstarBuildResult,
    BenchError,
>)
    requires
        budget.trial_limit >= 1,
    ensures
        match r {
            Ok(out) => {
                &&& data@.len() > 0
                &&& out.build_series@.len() == out.teardown_series@.len()
                &&& 1 <= out.build_series@.len() <= budget.trial_limit
                &&& crate::bench::two_series_within_budget(
                    out.build_series@,
                    out.teardown_series@,
                    *budget,
                )
                &&& (crate::harness::sum_ns(out.build_series@) + crate::harness::sum_ns(
                    out.teardown_series@,
                ) <= budget.time_budget_ns ==> out.build_series@.len() == budget.trial_limit)
                &&& rstar_tree_count(out.tree) == data@.len()
            },
            Err(e) => e == BenchError::EmptyDataset && data@.len() == 0,
        },
{
    if data.len() == 0 {
        return Err(BenchError::EmptyDataset);
    }
    let mut build_series = TrialSeries::new();
    let mut teardown_series = TrialSeries::new();
    let mut total: u128 = 0;
    let mut stop = false;
    let mut c: usize = 0;
    while c < budget.trial_limit && !stop
        invariant
            budget.trial_limit >= 1,
            data@.len() > 0,
            c <= budget.trial_limit,
            build_series@.len() == c,
            teardown_series@.len() == c,
            total == crate::harness::sum_ns(build_series@) + crate::harness::sum_ns(
                teardown_series@,
            ),
            !stop ==> total <= budget.time_budget_ns,
            stop ==> total > budget.time_budget_ns,
            c > 0 ==> crate::bench::two_series_within_budget(
                build_series@,
                teardown_series@,
                *budget,
            ),
        decreases budget.trial_limit - c,
    {
        let cloned = data.clone();
        let t0 = now_instant();
        let tree = rstar_bulk_load(cloned);
        let build_ns = elapsed_nanos(&t0);
        proof {
            lemma_sum_ns_push(build_series@, build_ns);
        }
        build_series.record(build_ns);
        let t1 = now_instant();
        rstar_teardown(tree);
        let tear_ns = elapsed_nanos(&t1);
        proof {
            lemma_sum_ns_push(teardown_series@, tear_ns);
            lemma_sum_ns_nonneg(build_series@);
            lemma_sum_ns_nonneg(teardown_series@);
        }
        teardown_series.record(tear_ns);
        total = total + build_ns as u128 + tear_ns as u128;
        if total > budget.time_budget_ns as u128 {
            stop = true;
        }
        c = c + 1;
    }
    let cloned = data.clone();
    let tree = rstar_bulk_load(cloned);
    Ok(RstarBuildResult { build_series, teardown_series, tree })
}

/// Repeatedly times an rstar query over the root envelope, checking that
/// every object is returned; a shortfall is a fatal mismatch. The run
/// succeeds exactly when the root-envelope query count equals the tree's
/// object count.
pub fn bench_queryall_rstar(tree: &RstarTree, budget: &BenchBudget) -> (r: Result<
    (TrialSeries, StopReason),
    BenchError,
>)
    requires
        budget.trial_limit >= 1,
    ensures
        match r {
            Ok(out) => {
                &&& rstar_root_count(*tree) == rstar_tree_count(*tree)
                &&& 1 <= out.0@.len() <= budget.trial_limit
                &&& crate::bench::series_within_budget(out.0@, *budget)
                &&& (crate::harness::sum_ns(out.0@) <= budget.time_budget_ns ==> out.0@.len()
                    == budget.trial_limit)
            },
            Err(e) => e == BenchError::CountMismatch && rstar_root_count(*tree)
                != rstar_tree_count(*tree),
        },
{
    let mut series = TrialSeries::new();
    let mut total: u128 = 0;
    let mut stop = false;
    let mut c: usize = 0;
    while c < budget.trial_limit && !stop
        invariant
            budget.trial_limit >= 1,
            c <= budget.trial_limit,
            series@.len() == c,
            total == crate::harness::sum_ns(series@),
            !stop ==> total <= budget.time_budget_ns,
            stop ==> total > budget.time_budget_ns,
            c > 0 ==> crate::bench::series_within_budget(series@, *budget),
            c > 0 ==> rstar_root_count(*tree) == rstar_tree_count(*tree),
        decreases budget.trial_limit - c,
    {
        let t0 = now_instant();
        let result = rstar_locate_root(tree);
        let ns = elapsed_nanos(&t0);
        if result.len() != rstar_size(tree) {
            return Err(BenchError::CountMismatch);
        }
        proof {
            lemma_sum_ns_push(series@, ns);
            lemma_sum_ns_nonneg(series@);
        }
        series.record(ns);
        total = total + ns as u128;
        if total > budget.time_budget_ns as u128 {
            stop = true;
        }
        c = c + 1;
    }
    let reason = if stop {
        StopReason::TimeBudget
    } else {
        StopReason::TrialLimit
    };
    Ok((series, reason))
}

/// Every envelope of every tier of a preset corpus matches its tier's
/// expected cardinality against the tree, per the named corner query
/// counts.
pub open spec fn rstar_corpus_matches(
    tree: RstarTree,
    corpus: Seq<Vec<Envelope>>,
    expected: Seq<usize>,
) -> bool {
    forall|n: int, i: int|
        0 <= n < corpus.len() && 0 <= i < corpus[n]@.len() ==> rstar_corner_count(
            tree,
            (#[trigger] corpus[n]@[i]).minx,
            corpus[n]@[i].miny,
            corpus[n]@[i].maxx,
            corpus[n]@[i].maxy,
        ) == expected[n]
}

/// Repeatedly queries an rstar tree with a preset envelope corpus: per
/// trial, one query per envelope slot and tier, each latency appended to
/// that tier's series, the shared budget applied to the sum of all query
/// times of a trial and checked only after a full trial. A query whose
/// cardinality differs from its tier's expected count is a fatal
/// mismatch; the run succeeds exactly when the whole corpus matches.
pub fn bench_querypre_rstar(
    tree: &RstarTree,
    corpus: &Vec<Vec<Envelope>>,
    expected: &Vec<usize>,
    slots: usize,
    budget: &BenchBudget,
) -> (r: Result<(Vec<TrialSeries>, usize), BenchError>)
    requires
        expected@.len() == corpus@.len(),
        forall|n: int| 0 <= n < corpus@.len() ==> (#[trigger] corpus@[n])@.len() == slots,
        budget.trial_limit >= 1,
    ensures
        match r {
            Ok(out) => {
                &&& rstar_corpus_matches(*tree, corpus@, expected@)
                &&& out.0@.len() == corpus@.len()
                &&& 1 <= out.1 <= budget.trial_limit
                &&& forall|n: int| 0 <= n < out.0@.len() ==> (#[trigger] out.0@[n])@.len()
                    == out.1 * slots
                &&& crate::harness::total_ns_of_prefix(out.0@, (out.1 - 1) * slots)
                    <= budget.time_budget_ns
                &&& (total_ns_of(out.0@) <= budget.time_budget_ns ==> out.1
                    == budget.trial_limit)
            },
            Err(e) => e == BenchError::CountMismatch && !rstar_corpus_matches(
                *tree,
                corpus@,
                expected@,
            ),
        },
{
    let tiers = corpus.len();
    let mut series: Vec<TrialSeries> = Vec::new();
    let mut k: usize = 0;
    while k < tiers
        invariant
            k <= tiers,
            series@.len() == k,
            forall|n: int| 0 <= n < k ==> (#[trigger] series@[n])@.len() == 0,
            total_ns_of(series@) == 0,
        decreases tiers - k,
    {
        let fresh = TrialSeries::new();
        proof {
            lemma_total_ns_push_empty(series@, fresh);
        }
        series.push(fresh);
        k = k + 1;
    }
    let mut total: u128 = 0;
    let mut stop = false;
    let mut t: usize = 0;
    while t < budget.trial_limit && !stop
        invariant
            expected@.len() == corpus@.len(),
            corpus@.len() == tiers,
            forall|n: int| 0 <= n < corpus@.len() ==> (#[trigger] corpus@[n])@.len() == slots,
            budget.trial_limit >= 1,
            t <= budget.trial_limit,
            stop ==> t >= 1,
            series@.len() == tiers,
            forall|n: int| 0 <= n < tiers ==> (#[trigger] series@[n])@.len() == t * slots,
            t >= 1 ==> rstar_corpus_matches(*tree, corpus@, expected@),
            total == total_ns_of(series@) || (total == u128::MAX && total_ns_of(series@)
                > u128::MAX),
            !stop ==> total <= budget.time_budget_ns,
            stop ==> total > budget.time_budget_ns,
            t >= 1 ==> crate::harness::total_ns_of_prefix(series@, (t - 1) * slots)
                <= budget.time_budget_ns,
        decreases budget.trial_limit - t,
    {
        let ghost snapshot = series@;
        let mut i: usize = 0;
        while i < slots
            invariant
                expected@.len() == corpus@.len(),
                corpus@.len() == tiers,
                forall|n: int| 0 <= n < corpus@.len() ==> (#[trigger] corpus@[n])@.len() == slots,
                i <= slots,
                series@.len() == tiers,
                forall|n: int| 0 <= n < tiers ==> (#[trigger] series@[n])@.len() == t * slots + i,
                t >= 1 ==> rstar_corpus_matches(*tree, corpus@, expected@),
                forall|n: int, j: int|
                    0 <= n < corpus@.len() && 0 <= j < i ==> rstar_corner_count(
                        *tree,
                        (#[trigger] corpus@[n]@[j]).minx,
                        corpus@[n]@[j].miny,
                        corpus@[n]@[j].maxx,
                        corpus@[n]@[j].maxy,
                    ) == expected@[n],
                total == total_ns_of(series@) || (total == u128::MAX && total_ns_of(series@)
                    > u128::MAX),
                snapshot.len() == tiers,
                forall|n: int| 0 <= n < tiers ==> (#[trigger] snapshot[n])@.len() == t * slots,
                forall|n: int| 0 <= n < tiers ==> (#[trigger] series@[n])@.take(t * slots)
                    == snapshot[n]@,
                total_ns_of(snapshot) <= budget.time_budget_ns,
            decreases slots - i,
        {
            let mut n: usize = 0;
            while n < tiers
                invariant
                    expected@.len() == corpus@.len(),
                    corpus@.len() == tiers,
                    forall|m: int| 0 <= m < corpus@.len() ==> (#[trigger] corpus@[m])@.len()
                        == slots,
                    i < slots,
                    n <= tiers,
                    series@.len() == tiers,
                    forall|m: int| 0 <= m < tiers ==> (#[trigger] series@[m])@.len() == t * slots
                        + i + (if m < n {
                        1int
                    } else {
                        0int
                    }),
                    t >= 1 ==> rstar_corpus_matches(*tree, corpus@, expected@),
                    forall|m: int, j: int|
                        0 <= m < corpus@.len() && 0 <= j < i ==> rstar_corner_count(
                            *tree,
                            (#[trigger] corpus@[m]@[j]).minx,
                            corpus@[m]@[j].miny,
                            corpus@[m]@[j].maxx,
                            corpus@[m]@[j].maxy,
                        ) == expected@[m],
                    forall|m: int|
                        0 <= m < n ==> rstar_corner_count(
                            *tree,
                            (#[trigger] corpus@[m]@[i as int]).minx,
                            corpus@[m]@[i as int].miny,
                            corpus@[m]@[i as int].maxx,
                            corpus@[m]@[i as int].maxy,
                        ) == expected@[m],
                    total == total_ns_of(series@) || (total == u128::MAX && total_ns_of(series@)
                        > u128::MAX),
                    snapshot.len() == tiers,
                    forall|m: int| 0 <= m < tiers ==> (#[trigger] snapshot[m])@.len() == t * slots,
                    forall|m: int| 0 <= m < tiers ==> (#[trigger] series@[m])@.take(t * slots)
                        == snapshot[m]@,
                    total_ns_of(snapshot) <= budget.time_budget_ns,
                decreases tiers - n,
            {
                let row = &corpus[n];
                let env = &row[i];
                let t0 = now_instant();
                let result = rstar_locate_corners(tree, env.minx, env.miny, env.maxx, env.maxy);
                let ns = elapsed_nanos(&t0);
                if result.len() != expected[n] {
                    proof {
                        assert(!rstar_corpus_matches(*tree, corpus@, expected@)) by {
                            assert(rstar_corner_count(
                                *tree,
                                corpus@[n as int]@[i as int].minx,
                                corpus@[n as int]@[i as int].miny,
                                corpus@[n as int]@[i as int].maxx,
                                corpus@[n as int]@[i as int].maxy,
                            ) != expected@[n as int]);
                        }
                    }
                    return Err(BenchError::CountMismatch);
                }
                let ghost pre = series@;
                series[n].record(ns);
                proof {
                    lemma_sum_ns_push(pre[n as int]@, ns);
                    lemma_total_ns_update(pre, n as int, series@[n as int]);
                    assert(series@[n as int]@.take(t * slots) =~= snapshot[n as int]@);
                }
                total = total.saturating_add(ns as u128);
                n = n + 1;
            }
            i = i + 1;
        }
        proof {
            crate::harness::lemma_total_ns_prefix_agrees(series@, snapshot, t * slots);
        }
        if total > budget.time_budget_ns as u128 {
            stop = true;
        }
        t = t + 1;
        proof {
            assert(t * slots == (t - 1) * slots + slots) by (nonlinear_arith)
                requires
                    t >= 1,
            ;
        }
    }
    Ok((series, t))
}

} // verus!

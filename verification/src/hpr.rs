//! Benchmark drivers for the hprtree index. The tree, its builder and its
//! geometry types are opaque to the verifier; the measurement loops, the
//! budget discipline and the mismatch handling around them are verified.
//! Coordinates of this index are single-precision floats, so positions and
//! query boxes are built by the caller and carried through untouched, and
//! the indexed elements are bare positions: the crate's indexing trait
//! cannot be declared to the verifier, so the element type cannot be left
//! generic here.

use vstd::prelude::*;

use crate::bench::BenchError;
use crate::harness::{
    elapsed_nanos, lemma_sum_ns_nonneg, lemma_sum_ns_push, lemma_total_ns_push_empty,
    lemma_total_ns_update, now_instant, total_ns_of, BenchBudget, StopReason, TrialSeries,
};

verus! {

#[verifier::external_type_specification]
#[verifier::external_body]
pub struct ExBBox(hprtree::BBox);

#[verifier::external_type_specification]
#[verifier::external_body]
pub struct ExPoint(hprtree::Point);

/// An opaque handle owning an hprtree builder. The tree crate's types
/// cannot be declared to the verifier directly because their bounds name
/// the crate's own indexing trait, so the builder is held in a hidden
/// field instead.
#[verifier::external_body]
pub struct HprBuilder {
    inner: hprtree::HPRTreeBuilder<hprtree::Point>,
}

/// An opaque handle owning a built hprtree index.
#[verifier::external_body]
pub struct HprTree {
    inner: hprtree::HPRTree<hprtree::Point>,
}

/// Number of elements inserted into a builder so far.
pub uninterp spec fn hpr_builder_count(b: HprBuilder) -> nat;

/// Number of elements held by a built tree.
pub uninterp spec fn hpr_tree_count(t: HprTree) -> nat;

/// Number of elements a query of the tree with the given box returns.
pub uninterp spec fn hpr_query_count(t: HprTree, env: hprtree::BBox) -> nat;

/// Number of elements a query of the tree with its own extent returns.
pub uninterp spec fn hpr_queryall_count(t: HprTree) -> nat;

/// Relies on hprtree::HPRTreeBuilder::new: an empty builder with the given
/// base capacity.
#[verifier::external_body]
fn hpr_builder_new(size: usize) -> (r: HprBuilder)
    ensures
        hpr_builder_count(r) == 0,
{
    HprBuilder { inner: hprtree::HPRTreeBuilder::new(size) }
}

/// Relies on hprtree::HPRTreeBuilder::insert: appends one element to the
/// builder's item store.
#[verifier::external_body]
fn hpr_insert(builder: &mut HprBuilder, item: hprtree::Point)
    ensures
        hpr_builder_count(*final(builder)) == hpr_builder_count(*old(builder)) + 1,
{
    builder.inner.insert(item);
}

/// Relies on hprtree::HPRTreeBuilder::build: sorts the data and builds the
/// queryable index over exactly the inserted elements.
#[verifier::external_body]
fn hpr_build(builder: HprBuilder) -> (r: HprTree)
    ensures
        hpr_tree_count(r) == hpr_builder_count(builder),
{
    HprTree { inner: builder.inner.build() }
}

/// Relies on hprtree::HPRTree::len: the number of indexed elements.
#[verifier::external_body]
fn hpr_len(tree: &HprTree) -> (r: usize)
    ensures
        r == hpr_tree_count(*tree),
{
    tree.inner.len()
}

/// Relies on hprtree::HPRTree::extent: the bounding box of the indexed
/// elements; querying with the returned box is the full-extent query.
#[verifier::external_body]
fn hpr_extent(tree: &HprTree) -> (r: hprtree::BBox)
    ensures
        hpr_query_count(*tree, r) == hpr_queryall_count(*tree),
{
    tree.inner.extent()
}

/// Relies on hprtree::HPRTree::query: the elements whose position lies in
/// the box, a deterministic function of the tree and the box.
#[verifier::external_body]
fn hpr_query(tree: &HprTree, env: &hprtree::BBox) -> (r: Vec<hprtree::Point>)
    ensures
        r@.len() == hpr_query_count(*tree, *env),
{
    tree.inner.query(env)
}

/// Relies on hprtree::HPRTree::query_with_list: as `query`, pushing the
/// found elements onto a caller-provided vector.
#[verifier::external_body]
fn hpr_query_with_list(tree: &HprTree, env: &hprtree::BBox, out: &mut Vec<hprtree::Point>)
    ensures
        final(out)@.len() == old(out)@.len() + hpr_query_count(*tree, *env),
{
    tree.inner.query_with_list(env, out);
}

/// Relies on hprtree::HPRTree::current_size_in_bytes: the bytes taken up
/// by the tree's data.
#[verifier::external_body]
fn hpr_size_bytes(tree: &HprTree) -> usize {
    tree.inner.current_size_in_bytes()
}

/// Consumes the tree so that its teardown happens between two clock
/// readings.
fn hpr_teardown(tree: HprTree) {
    let _ = tree;
}

/// Everything a tree build-benchmark run yields: the two latency series,
/// one memory-footprint sample, and a live tree rebuilt after the last
/// measured teardown.
pub struct TreeBuildResult {
    pub build_series: TrialSeries,
    pub teardown_series: TrialSeries,
    pub size_bytes: usize,
    pub tree: HprTree,
}

/// Repeatedly times hprtree construction from a fresh copy of the input
/// and immediate teardown, as two series under one shared budget, and
/// rebuilds the tree once more to hand it back live.
pub fn bench_build_hprtree(
    data: &Vec<hprtree::Point>,
    budget: &BenchBudget,
) -> (r: Result<TreeBuildResult, BenchError>)
    requires
        budget.trial_limit >= 1,
    ensures
        match r {
            Ok(out) => {
                &&& data@.len() > 0
                &&& out.build_series@.len() == out.teardown_series@.len()
                &&& 1 <= out.build_series@.len() <= budget.trial_limit
                &&& crate::bench::two_series_within_budget(
                    out.build_series@,
                    out.teardown_series@,
                    *budget,
                )
                &&& (crate::harness::sum_ns(out.build_series@) + crate::harness::sum_ns(
                    out.teardown_series@,
                ) <= budget.time_budget_ns ==> out.build_series@.len() == budget.trial_limit)
                &&& hpr_tree_count(out.tree) == data@.len()
            },
            Err(e) => e == BenchError::EmptyDataset && data@.len() == 0,
        },
{
    if data.len() == 0 {
        return Err(BenchError::EmptyDataset);
    }
    let mut build_series = TrialSeries::new();
    let mut teardown_series = TrialSeries::new();
    let mut size_bytes: usize = 0;
    let mut total: u128 = 0;
    let mut stop = false;
    let mut c: usize = 0;
    while c < budget.trial_limit && !stop
        invariant
            budget.trial_limit >= 1,
            data@.len() > 0,
            c <= budget.trial_limit,
            build_series@.len() == c,
            teardown_series@.len() == c,
            total == crate::harness::sum_ns(build_series@) + crate::harness::sum_ns(
                teardown_series@,
            ),
            !stop ==> total <= budget.time_budget_ns,
            stop ==> total > budget.time_budget_ns,
            c > 0 ==> crate::bench::two_series_within_budget(
                build_series@,
                teardown_series@,
                *budget,
            ),
        decreases budget.trial_limit - c,
    {
        let mut cloned = data.clone();
        let t0 = now_instant();
        let mut builder: HprBuilder = hpr_builder_new(cloned.len());
        loop
            invariant_except_break
                hpr_builder_count(builder) + cloned@.len() == data@.len(),
            ensures
                hpr_builder_count(builder) == data@.len(),
            decreases cloned@.len(),
        {
            match cloned.pop() {
                Some(item) => {
                    hpr_insert(&mut builder, item);
                },
                None => {
                    break ;
                },
            }
        }
        let tree = hpr_build(builder);
        let build_ns = elapsed_nanos(&t0);
        if c == 0 {
            size_bytes = hpr_size_bytes(&tree);
        }
        proof {
            lemma_sum_ns_push(build_series@, build_ns);
        }
        build_series.record(build_ns);
        let t1 = now_instant();
        hpr_teardown(tree);
        let tear_ns = elapsed_nanos(&t1);
        proof {
            lemma_sum_ns_push(teardown_series@, tear_ns);
            lemma_sum_ns_nonneg(build_series@);
            lemma_sum_ns_nonneg(teardown_series@);
        }
        teardown_series.record(tear_ns);
        total = total + build_ns as u128 + tear_ns as u128;
        if total > budget.time_budget_ns as u128 {
            stop = true;
        }
        c = c + 1;
    }
    let mut cloned = data.clone();
    let mut builder: HprBuilder = hpr_builder_new(cloned.len());
    loop
        invariant_except_break
            hpr_builder_count(builder) + cloned@.len() == data@.len(),
        ensures
            hpr_builder_count(builder) == data@.len(),
        decreases cloned@.len(),
    {
        match cloned.pop() {
            Some(item) => {
                hpr_insert(&mut builder, item);
            },
            None => {
                break ;
            },
        }
    }
    let tree = hpr_build(builder);
    Ok(TreeBuildResult { build_series, teardown_series, size_bytes, tree })
}

/// Repeatedly times an hprtree query over the tree's own extent, checking
/// that every element is returned; a shortfall is a fatal mismatch. The
/// run succeeds exactly when the full-extent query count equals the
/// tree's element count.
pub fn bench_queryall_hprtree(
    tree: &HprTree,
    budget: &BenchBudget,
) -> (r: Result<(TrialSeries, StopReason), BenchError>)
    requires
        budget.trial_limit >= 1,
    ensures
        match r {
            Ok(out) => {
                &&& hpr_queryall_count(*tree) == hpr_tree_count(*tree)
                &&& 1 <= out.0@.len() <= budget.trial_limit
                &&& crate::bench::series_within_budget(out.0@, *budget)
                &&& (crate::harness::sum_ns(out.0@) <= budget.time_budget_ns ==> out.0@.len()
                    == budget.trial_limit)
            },
            Err(e) => e == BenchError::CountMismatch && hpr_queryall_count(*tree)
                != hpr_tree_count(*tree),
        },
{
    let mut series = TrialSeries::new();
    let mut total: u128 = 0;
    let mut stop = false;
    let mut c: usize = 0;
    while c < budget.trial_limit && !stop
        invariant
            budget.trial_limit >= 1,
            c <= budget.trial_limit,
            series@.len() == c,
            total == crate::harness::sum_ns(series@),
            !stop ==> total <= budget.time_budget_ns,
            stop ==> total > budget.time_budget_ns,
            c > 0 ==> crate::bench::series_within_budget(series@, *budget),
            c > 0 ==> hpr_queryall_count(*tree) == hpr_tree_count(*tree),
        decreases budget.trial_limit - c,
    {
        let t0 = now_instant();
        let extent = hpr_extent(tree);
        let result = hpr_query(tree, &extent);
        let ns = elapsed_nanos(&t0);
        if result.len() != hpr_len(tree) {
            return Err(BenchError::CountMismatch);
        }
        proof {
            lemma_sum_ns_push(series@, ns);
            lemma_sum_ns_nonneg(series@);
        }
        series.record(ns);
        total = total + ns as u128;
        if total > budget.time_budget_ns as u128 {
            stop = true;
        }
        c = c + 1;
    }
    let reason = if stop {
        StopReason::TimeBudget
    } else {
        StopReason::TrialLimit
    };
    Ok((series, reason))
}

/// Every box of every tier of a preset corpus matches its tier's
/// expected cardinality against the tree, per the named query counts.
pub open spec fn hpr_corpus_matches(
    tree: HprTree,
    bboxes: Seq<Vec<hprtree::BBox>>,
    expected: Seq<usize>,
) -> bool {
    forall|n: int, i: int|
        0 <= n < bboxes.len() && 0 <= i < bboxes[n]@.len() ==> hpr_query_count(
            tree,
            #[trigger] bboxes[n]@[i],
        ) == expected[n]
}

/// Repeatedly queries an hprtree with a preset envelope corpus: per trial,
/// one query per envelope slot and tier, each latency appended to that
/// tier's series, the shared budget applied to the sum of all query times
/// of a trial and checked only after a full trial. A query whose
/// cardinality differs from its tier's expected count is a fatal
/// mismatch; the run succeeds exactly when the whole corpus matches.
pub fn bench_querypre_hprtree(
    tree: &HprTree,
    bboxes: &Vec<Vec<hprtree::BBox>>,
    expected: &Vec<usize>,
    slots: usize,
    budget: &BenchBudget,
) -> (r: Result<(Vec<TrialSeries>, usize), BenchError>)
    requires
        expected@.len() == bboxes@.len(),
        forall|n: int| 0 <= n < bboxes@.len() ==> (#[trigger] bboxes@[n])@.len() == slots,
        budget.trial_limit >= 1,
    ensures
        match r {
            Ok(out) => {
                &&& hpr_corpus_matches(*tree, bboxes@, expected@)
                &&& out.0@.len() == bboxes@.len()
                &&& 1 <= out.1 <= budget.trial_limit
                &&& forall|n: int| 0 <= n < out.0@.len() ==> (#[trigger] out.0@[n])@.len()
                    == out.1 * slots
                &&& crate::harness::total_ns_of_prefix(out.0@, (out.1 - 1) * slots)
                    <= budget.time_budget_ns
                &&& (total_ns_of(out.0@) <= budget.time_budget_ns ==> out.1
                    == budget.trial_limit)
            },
            Err(e) => e == BenchError::CountMismatch && !hpr_corpus_matches(
                *tree,
                bboxes@,
                expected@,
            ),
        },
{
    let tiers = bboxes.len();
    let mut series: Vec<TrialSeries> = Vec::new();
    let mut k: usize = 0;
    while k < tiers
        invariant
            k <= tiers,
            series@.len() == k,
            forall|n: int| 0 <= n < k ==> (#[trigger] series@[n])@.len() == 0,
            total_ns_of(series@) == 0,
        decreases tiers - k,
    {
        let fresh = TrialSeries::new();
        proof {
            lemma_total_ns_push_empty(series@, fresh);
        }
        series.push(fresh);
        k = k + 1;
    }
    let mut total: u128 = 0;
    let mut stop = false;
    let mut t: usize = 0;
    while t < budget.trial_limit && !stop
        invariant
            expected@.len() == bboxes@.len(),
            bboxes@.len() == tiers,
            forall|n: int| 0 <= n < bboxes@.len() ==> (#[trigger] bboxes@[n])@.len() == slots,
            budget.trial_limit >= 1,
            t <= budget.trial_limit,
            stop ==> t >= 1,
            series@.len() == tiers,
            forall|n: int| 0 <= n < tiers ==> (#[trigger] series@[n])@.len() == t * slots,
            t >= 1 ==> hpr_corpus_matches(*tree, bboxes@, expected@),
            total == total_ns_of(series@) || (total == u128::MAX && total_ns_of(series@)
                > u128::MAX),
            !stop ==> total <= budget.time_budget_ns,
            stop ==> total > budget.time_budget_ns,
            t >= 1 ==> crate::harness::total_ns_of_prefix(series@, (t - 1) * slots)
                <= budget.time_budget_ns,
        decreases budget.trial_limit - t,
    {
        let ghost snapshot = series@;
        let mut i: usize = 0;
        while i < slots
            invariant
                expected@.len() == bboxes@.len(),
                bboxes@.len() == tiers,
                forall|n: int| 0 <= n < bboxes@.len() ==> (#[trigger] bboxes@[n])@.len() == slots,
                i <= slots,
                series@.len() == tiers,
                forall|n: int| 0 <= n < tiers ==> (#[trigger] series@[n])@.len() == t * slots + i,
                t >= 1 ==> hpr_corpus_matches(*tree, bboxes@, expected@),
                forall|n: int, j: int|
                    0 <= n < bboxes@.len() && 0 <= j < i ==> hpr_query_count(
                        *tree,
                        #[trigger] bboxes@[n]@[j],
                    ) == expected@[n],
                total == total_ns_of(series@) || (total == u128::MAX && total_ns_of(series@)
                    > u128::MAX),
                snapshot.len() == tiers,
                forall|n: int| 0 <= n < tiers ==> (#[trigger] snapshot[n])@.len() == t * slots,
                forall|n: int| 0 <= n < tiers ==> (#[trigger] series@[n])@.take(t * slots)
                    == snapshot[n]@,
                total_ns_of(snapshot) <= budget.time_budget_ns,
            decreases slots - i,
        {
            let mut n: usize = 0;
            while n < tiers
                invariant
                    expected@.len() == bboxes@.len(),
                    bboxes@.len() == tiers,
                    forall|m: int| 0 <= m < bboxes@.len() ==> (#[trigger] bboxes@[m])@.len()
                        == slots,
                    i < slots,
                    n <= tiers,
                    series@.len() == tiers,
                    forall|m: int| 0 <= m < tiers ==> (#[trigger] series@[m])@.len() == t * slots
                        + i + (if m < n {
                        1int
                    } else {
                        0int
                    }),
                    t >= 1 ==> hpr_corpus_matches(*tree, bboxes@, expected@),
                    forall|m: int, j: int|
                        0 <= m < bboxes@.len() && 0 <= j < i ==> hpr_query_count(
                            *tree,
                            #[trigger] bboxes@[m]@[j],
                        ) == expected@[m],
                    forall|m: int|
                        0 <= m < n ==> hpr_query_count(*tree, #[trigger] bboxes@[m]@[i as int])
                            == expected@[m],
                    total == total_ns_of(series@) || (total == u128::MAX && total_ns_of(series@)
                        > u128::MAX),
                    snapshot.len() == tiers,
                    forall|m: int| 0 <= m < tiers ==> (#[trigger] snapshot[m])@.len() == t * slots,
                    forall|m: int| 0 <= m < tiers ==> (#[trigger] series@[m])@.take(t * slots)
                        == snapshot[m]@,
                    total_ns_of(snapshot) <= budget.time_budget_ns,
                decreases tiers - n,
            {
                let row = &bboxes[n];
                let env = &row[i];
                let t0 = now_instant();
                let mut result: Vec<hprtree::Point> = Vec::new();
                hpr_query_with_list(tree, env, &mut result);
                let ns = elapsed_nanos(&t0);
                if result.len() != expected[n] {
                    proof {
                        assert(!hpr_corpus_matches(*tree, bboxes@, expected@)) by {
                            assert(hpr_query_count(*tree, bboxes@[n as int]@[i as int])
                                != expected@[n as int]);
                        }
                    }
                    return Err(BenchError::CountMismatch);
                }
                let ghost pre = series@;
                series[n].record(ns);
                proof {
                    lemma_sum_ns_push(pre[n as int]@, ns);
                    lemma_total_ns_update(pre, n as int, series@[n as int]);
                    assert(series@[n as int]@.take(t * slots) =~= snapshot[n as int]@);
                }
                total = total.saturating_add(ns as u128);
                n = n + 1;
            }
            i = i + 1;
        }
        proof {
            crate::harness::lemma_total_ns_prefix_agrees(series@, snapshot, t * slots);
        }
        if total > budget.time_budget_ns as u128 {
            stop = true;
        }
        t = t + 1;
        proof {
            assert(t * slots == (t - 1) * slots + slots) by (nonlinear_arith)
                requires
                    t >= 1,
            ;
        }
    }
    Ok((series, t))
}

} // verus!

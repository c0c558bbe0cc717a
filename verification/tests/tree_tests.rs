use spatialbench::bench::BenchError;
use spatialbench::envelope::Envelope;
use spatialbench::harness::BenchBudget;
use spatialbench::hpr::{bench_build_hprtree, bench_querypre_hprtree, bench_queryall_hprtree};
use spatialbench::rstar_bench::{bench_build_rstar, bench_querypre_rstar, bench_queryall_rstar};

fn hpr_points() -> Vec<hprtree::Point> {
    let mut points = Vec::new();
    for i in 0..8 {
        for j in 0..8 {
            points.push(hprtree::Point { x: i as f32, y: j as f32 });
        }
    }
    points
}

#[test]
fn hprtree_build_bench_runs() {
    let data = hpr_points();
    let budget = BenchBudget { trial_limit: 3, time_budget_ns: u64::MAX };
    let out = bench_build_hprtree(&data, &budget).unwrap();
    assert_eq!(out.build_series.len(), 3);
    assert_eq!(out.teardown_series.len(), 3);
    assert!(out.size_bytes > 0);
}

#[test]
fn hprtree_build_bench_rejects_empty() {
    let data: Vec<hprtree::Point> = Vec::new();
    let budget = BenchBudget { trial_limit: 3, time_budget_ns: u64::MAX };
    assert!(matches!(bench_build_hprtree(&data, &budget), Err(BenchError::EmptyDataset)));
}

#[test]
fn hprtree_queryall_bench_runs() {
    let data = hpr_points();
    let budget = BenchBudget { trial_limit: 2, time_budget_ns: u64::MAX };
    let out = bench_build_hprtree(&data, &budget).unwrap();
    let (series, _) = bench_queryall_hprtree(&out.tree, &budget).unwrap();
    assert_eq!(series.len(), 2);
}

#[test]
fn hprtree_queryall_detects_mismatch() {
    // A point with NaN coordinates never widens the builder's extent, so
    // the tree keeps its inverted default extent and the full-extent
    // query returns nothing: a fatal count mismatch.
    let data = vec![hprtree::Point { x: f32::NAN, y: f32::NAN }];
    let budget = BenchBudget { trial_limit: 2, time_budget_ns: u64::MAX };
    let out = bench_build_hprtree(&data, &budget).unwrap();
    let result = bench_queryall_hprtree(&out.tree, &budget);
    assert!(matches!(result, Err(BenchError::CountMismatch)));
}

#[test]
fn hprtree_querypre_bench_counts() {
    let data = hpr_points();
    let budget = BenchBudget { trial_limit: 1, time_budget_ns: u64::MAX };
    let out = bench_build_hprtree(&data, &budget).unwrap();
    // An 8 by 8 unit grid: the quarter box holds 16 points, the full box
    // all 64.
    let quarter = hprtree::BBox { minx: 0.0, maxx: 3.0, miny: 0.0, maxy: 3.0 };
    let full = hprtree::BBox { minx: 0.0, maxx: 7.0, miny: 0.0, maxy: 7.0 };
    let boxes = vec![vec![quarter; 2], vec![full; 2]];
    let expected = vec![16usize, 64usize];
    let (series, trials) = bench_querypre_hprtree(&out.tree, &boxes, &expected, 2, &budget)
        .unwrap();
    assert_eq!(trials, 1);
    assert_eq!(series.len(), 2);
    assert_eq!(series[0].len(), 2);
    assert_eq!(series[1].len(), 2);
}

#[test]
fn hprtree_querypre_bench_detects_mismatch() {
    let data = hpr_points();
    let budget = BenchBudget { trial_limit: 1, time_budget_ns: u64::MAX };
    let out = bench_build_hprtree(&data, &budget).unwrap();
    let quarter = hprtree::BBox { minx: 0.0, maxx: 3.0, miny: 0.0, maxy: 3.0 };
    let boxes = vec![vec![quarter; 1]];
    let wrong = vec![15usize];
    let result = bench_querypre_hprtree(&out.tree, &boxes, &wrong, 1, &budget);
    assert!(matches!(result, Err(BenchError::CountMismatch)));
}

fn rstar_points() -> Vec<(i64, i64, u32)> {
    let mut points = Vec::new();
    let mut id: u32 = 0;
    for x in 0..10i64 {
        for y in 0..10i64 {
            points.push((x, y, id));
            id += 1;
        }
    }
    points
}

#[test]
fn rstar_build_bench_runs() {
    let data = rstar_points();
    let budget = BenchBudget { trial_limit: 4, time_budget_ns: u64::MAX };
    let out = bench_build_rstar(&data, &budget).unwrap();
    assert_eq!(out.build_series.len(), 4);
    assert_eq!(out.teardown_series.len(), 4);
}

#[test]
fn rstar_build_bench_rejects_empty() {
    let data: Vec<(i64, i64, u32)> = Vec::new();
    let budget = BenchBudget { trial_limit: 4, time_budget_ns: u64::MAX };
    assert!(matches!(bench_build_rstar(&data, &budget), Err(BenchError::EmptyDataset)));
}

#[test]
fn rstar_queryall_bench_runs() {
    let data = rstar_points();
    let budget = BenchBudget { trial_limit: 2, time_budget_ns: u64::MAX };
    let out = bench_build_rstar(&data, &budget).unwrap();
    let (series, _) = bench_queryall_rstar(&out.tree, &budget).unwrap();
    assert_eq!(series.len(), 2);
}

#[test]
fn rstar_querypre_bench_counts() {
    let data = rstar_points();
    let budget = BenchBudget { trial_limit: 1, time_budget_ns: u64::MAX };
    let out = bench_build_rstar(&data, &budget).unwrap();
    let small = Envelope { minx: 0, maxx: 4, miny: 0, maxy: 4 };
    let full = Envelope { minx: 0, maxx: 9, miny: 0, maxy: 9 };
    let corpus = vec![vec![small; 3], vec![full; 3]];
    let expected = vec![25usize, 100usize];
    let (series, trials) = bench_querypre_rstar(&out.tree, &corpus, &expected, 3, &budget)
        .unwrap();
    assert_eq!(trials, 1);
    assert_eq!(series.len(), 2);
    assert_eq!(series[0].len(), 3);
    assert_eq!(series[1].len(), 3);
}

#[test]
fn rstar_querypre_bench_detects_mismatch() {
    let data = rstar_points();
    let budget = BenchBudget { trial_limit: 1, time_budget_ns: u64::MAX };
    let out = bench_build_rstar(&data, &budget).unwrap();
    let small = Envelope { minx: 0, maxx: 4, miny: 0, maxy: 4 };
    let corpus = vec![vec![small; 1]];
    let wrong = vec![24usize];
    let result = bench_querypre_rstar(&out.tree, &corpus, &wrong, 1, &budget);
    assert!(matches!(result, Err(BenchError::CountMismatch)));
}

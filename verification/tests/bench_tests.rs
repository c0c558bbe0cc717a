use spatialbench::bench::{bench_build, bench_queryall, bench_querypre, BenchError};
use spatialbench::envelope::{Envelope, Position};
use spatialbench::harness::{run_harness, BenchBudget, StopReason};
use spatialbench::index::{Element, PointIndex};

fn elem(x: i64, y: i64, id: u32) -> Element<u32> {
    Element { pos: Position { x, y }, payload: id }
}

fn grid_elems(width: i64, height: i64) -> Vec<Element<u32>> {
    let mut elems = Vec::new();
    let mut id: u32 = 0;
    for x in 0..width {
        for y in 0..height {
            elems.push(elem(x, y, id));
            id += 1;
        }
    }
    elems
}

#[test]
fn harness_records_all_trials_within_budget() {
    // One hundred trials of fifty milliseconds against a thirty-second
    // budget: the budget is not exhausted and every trial is recorded.
    let latencies: Vec<u64> = vec![50_000_000; 100];
    let budget = BenchBudget { trial_limit: 100, time_budget_ns: 30_000_000_000 };
    let (series, reason) = run_harness(&latencies, &budget);
    assert_eq!(series.len(), 100);
    assert_eq!(reason, StopReason::TrialLimit);
}

#[test]
fn harness_stops_on_time_budget_and_keeps_final_trial() {
    let latencies: Vec<u64> = vec![20_000_000_000, 20_000_000_000, 20_000_000_000];
    let budget = BenchBudget { trial_limit: 100, time_budget_ns: 30_000_000_000 };
    let (series, reason) = run_harness(&latencies, &budget);
    // The second trial pushes the total past the budget; its latency is
    // still recorded before the run stops.
    assert_eq!(series.len(), 2);
    assert_eq!(reason, StopReason::TimeBudget);
    assert_eq!(series.samples(), &vec![20_000_000_000, 20_000_000_000]);
}

#[test]
fn harness_respects_trial_limit() {
    let latencies: Vec<u64> = vec![1; 50];
    let budget = BenchBudget { trial_limit: 7, time_budget_ns: 1_000_000_000 };
    let (series, reason) = run_harness(&latencies, &budget);
    assert_eq!(series.len(), 7);
    assert_eq!(reason, StopReason::TrialLimit);
}

#[test]
fn build_bench_runs_all_trials() {
    let data = grid_elems(10, 10);
    let budget = BenchBudget { trial_limit: 5, time_budget_ns: u64::MAX };
    let out = bench_build(&data, &budget).unwrap();
    assert_eq!(out.build_series.len(), 5);
    assert_eq!(out.teardown_series.len(), 5);
    assert_eq!(out.index.count(), 100);
    let expected = 100 * std::mem::size_of::<Element<u32>>();
    assert_eq!(out.footprint, Some(expected));
}

#[test]
fn build_bench_rejects_empty_dataset() {
    let data: Vec<Element<u32>> = Vec::new();
    let budget = BenchBudget { trial_limit: 5, time_budget_ns: u64::MAX };
    assert_eq!(bench_build(&data, &budget).err(), Some(BenchError::EmptyDataset));
}

#[test]
fn queryall_bench_records_series() {
    let index = PointIndex::build(grid_elems(8, 8));
    let budget = BenchBudget { trial_limit: 3, time_budget_ns: u64::MAX };
    let (series, reason) = bench_queryall(&index, &budget);
    assert_eq!(series.len(), 3);
    assert_eq!(reason, StopReason::TrialLimit);
}

#[test]
fn querypre_bench_one_trial_three_tiers() {
    // Tiers of sixteen, sixty-four and two hundred fifty-six points with
    // sixteen envelope slots per tier: one trial issues exactly
    // three times sixteen queries and forty-eight latency samples,
    // sixteen in each tier's series.
    let index = PointIndex::build(grid_elems(16, 16));
    let tier16 = Envelope { minx: 0, maxx: 15, miny: 0, maxy: 0 };
    let tier64 = Envelope { minx: 0, maxx: 15, miny: 0, maxy: 3 };
    let tier256 = Envelope { minx: 0, maxx: 15, miny: 0, maxy: 15 };
    let corpus = vec![vec![tier16; 16], vec![tier64; 16], vec![tier256; 16]];
    let expected = vec![16usize, 64usize, 256usize];
    let budget = BenchBudget { trial_limit: 1, time_budget_ns: u64::MAX };
    let (series, trials) = bench_querypre(&index, &corpus, &expected, 16, &budget).unwrap();
    assert_eq!(trials, 1);
    assert_eq!(series.len(), 3);
    let total: usize = series.iter().map(|s| s.len()).sum();
    assert_eq!(total, 48);
    for s in &series {
        assert_eq!(s.len(), 16);
    }
}

#[test]
fn querypre_bench_detects_mismatch() {
    let index = PointIndex::build(grid_elems(16, 16));
    let tier16 = Envelope { minx: 0, maxx: 15, miny: 0, maxy: 0 };
    let corpus = vec![vec![tier16; 4]];
    let wrong = vec![17usize];
    let budget = BenchBudget { trial_limit: 2, time_budget_ns: u64::MAX };
    let result = bench_querypre(&index, &corpus, &wrong, 4, &budget);
    assert_eq!(result.err(), Some(BenchError::CountMismatch));
}

#[test]
fn querypre_bench_multiple_trials() {
    let index = PointIndex::build(grid_elems(4, 4));
    let all = Envelope { minx: 0, maxx: 3, miny: 0, maxy: 3 };
    let corpus = vec![vec![all; 2]];
    let expected = vec![16usize];
    let budget = BenchBudget { trial_limit: 3, time_budget_ns: u64::MAX };
    let (series, trials) = bench_querypre(&index, &corpus, &expected, 2, &budget).unwrap();
    assert_eq!(trials, 3);
    assert_eq!(series[0].len(), 6);
}

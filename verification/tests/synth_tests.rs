use spatialbench::corpus::{gen_corpus, gen_envelope_set, tier_sizes, ENV_COUNT};
use spatialbench::envelope::{Envelope, Position};
use spatialbench::index::{Element, PointIndex};
use spatialbench::synth::{eligible_edges, synthesize_envelope, EdgeKind, SynthError};

fn grid_index(width: i64, height: i64) -> PointIndex<u32> {
    let mut elems = Vec::new();
    let mut id: u32 = 0;
    for x in 0..width {
        for y in 0..height {
            elems.push(Element { pos: Position { x, y }, payload: id });
            id += 1;
        }
    }
    PointIndex::build(elems)
}

#[test]
fn synthesis_hits_exact_target() {
    let index = grid_index(30, 30);
    let region = Envelope { minx: -10, maxx: 40, miny: -10, maxy: 40 };
    let mut rng = rand::thread_rng();
    let env = synthesize_envelope(&index, 50, &region, 1_000_000, &mut rng).unwrap();
    assert_eq!(index.query_count(&env), 50);
    assert!(region.contains_env(&env));
}

#[test]
fn synthesis_zero_target() {
    // Points three units apart leave empty integer boxes between them, so
    // a zero count is reachable by inward shrinks.
    let mut elems = Vec::new();
    let mut id: u32 = 0;
    for x in 0..5i64 {
        for y in 0..5i64 {
            elems.push(Element { pos: Position { x: 3 * x, y: 3 * y }, payload: id });
            id += 1;
        }
    }
    let index = PointIndex::build(elems);
    let region = Envelope { minx: -10, maxx: 25, miny: -10, maxy: 25 };
    let mut rng = rand::thread_rng();
    let env = synthesize_envelope(&index, 0, &region, 1_000_000, &mut rng).unwrap();
    assert_eq!(index.query_count(&env), 0);
    assert!(region.contains_env(&env));
}

#[test]
fn synthesis_full_count_target() {
    let index = grid_index(6, 6);
    let region = Envelope { minx: -10, maxx: 10, miny: -10, maxy: 10 };
    let mut rng = rand::thread_rng();
    let env = synthesize_envelope(&index, 36, &region, 1_000_000, &mut rng).unwrap();
    assert_eq!(index.query_count(&env), 36);
}

#[test]
fn synthesis_empty_index() {
    let index: PointIndex<u32> = PointIndex::build(Vec::new());
    let region = Envelope { minx: -10, maxx: 10, miny: -10, maxy: 10 };
    let mut rng = rand::thread_rng();
    let env = synthesize_envelope(&index, 0, &region, 100, &mut rng).unwrap();
    assert_eq!(index.query_count(&env), 0);
    assert!(region.contains_env(&env));
}

#[test]
fn synthesis_stuck_on_duplicates() {
    // Five records at one position: a count of one is unreachable, and the
    // extent is already a collapsed single-point box, so no edge of the
    // too-big envelope can move.
    let elems = vec![
        Element { pos: Position { x: 4, y: 4 }, payload: 0u32 },
        Element { pos: Position { x: 4, y: 4 }, payload: 1u32 },
        Element { pos: Position { x: 4, y: 4 }, payload: 2u32 },
        Element { pos: Position { x: 4, y: 4 }, payload: 3u32 },
        Element { pos: Position { x: 4, y: 4 }, payload: 4u32 },
    ];
    let index = PointIndex::build(elems);
    let region = Envelope { minx: 0, maxx: 10, miny: 0, maxy: 10 };
    let mut rng = rand::thread_rng();
    let result = synthesize_envelope(&index, 1, &region, 1000, &mut rng);
    assert_eq!(result, Err(SynthError::NoEligibleEdge));
}

#[test]
fn synthesis_iteration_ceiling() {
    let index = grid_index(10, 10);
    let region = Envelope { minx: -5, maxx: 15, miny: -5, maxy: 15 };
    let mut rng = rand::thread_rng();
    // Zero iterations are allowed and the initial full-extent envelope does
    // not match the target, so the ceiling fires immediately.
    let result = synthesize_envelope(&index, 7, &region, 0, &mut rng);
    assert_eq!(result, Err(SynthError::NonConvergent));
}

#[test]
fn large_dataset_converges_to_tier() {
    // A dataset of 140,974 points, target tier 64: the search starts from
    // the full extent, classified too big, and must converge to an
    // envelope holding exactly 64 points.
    let total: i64 = 140_974;
    let mut elems = Vec::new();
    let mut i: i64 = 0;
    while i < total {
        elems.push(Element { pos: Position { x: i / 375, y: i % 375 }, payload: i as u32 });
        i += 1;
    }
    let index = PointIndex::build(elems);
    assert_eq!(index.count(), 140_974);
    let region = Envelope { minx: -20, maxx: 400, miny: -20, maxy: 400 };
    assert!(index.query_count(&index.extent()) > 64);
    let mut rng = rand::thread_rng();
    let env = synthesize_envelope(&index, 64, &region, 2_000_000, &mut rng).unwrap();
    assert_eq!(index.query_count(&env), 64);
    assert!(region.contains_env(&env));
}

#[test]
fn envelope_set_has_full_count() {
    let index = grid_index(20, 20);
    let region = Envelope { minx: -5, maxx: 25, miny: -5, maxy: 25 };
    let mut rng = rand::thread_rng();
    let set = gen_envelope_set(&index, 16, &region, ENV_COUNT, 1_000_000, &mut rng).unwrap();
    assert_eq!(set.len(), 16);
    for env in &set {
        assert_eq!(index.query_count(env), 16);
        assert!(region.contains_env(env));
    }
}

#[test]
fn corpus_skips_preexisting_tiers() {
    let index = grid_index(12, 12);
    let region = Envelope { minx: -5, maxx: 20, miny: -5, maxy: 20 };
    let tiers = vec![4usize, 9usize];
    let mut rng = rand::thread_rng();
    // Both tier files already exist: nothing is regenerated, so a rerun
    // leaves the persisted files untouched.
    let out = gen_corpus(&index, &region, &tiers, &vec![true, true], 4, 1_000_000, &mut rng)
        .unwrap();
    assert_eq!(out, vec![None, None]);
    // A rerun with the same inputs does the same.
    let again = gen_corpus(&index, &region, &tiers, &vec![true, true], 4, 1_000_000, &mut rng)
        .unwrap();
    assert_eq!(again, vec![None, None]);
}

#[test]
fn corpus_generates_missing_tiers() {
    let index = grid_index(12, 12);
    let region = Envelope { minx: -5, maxx: 20, miny: -5, maxy: 20 };
    let tiers = vec![4usize, 9usize];
    let mut rng = rand::thread_rng();
    let out = gen_corpus(&index, &region, &tiers, &vec![true, false], 4, 1_000_000, &mut rng)
        .unwrap();
    assert_eq!(out.len(), 2);
    assert!(out[0].is_none());
    let generated = out[1].as_ref().unwrap();
    assert_eq!(generated.len(), 4);
    for env in generated {
        assert_eq!(index.query_count(env), 9);
    }
}

#[test]
fn eligible_edges_when_growing() {
    let region = Envelope { minx: -10, maxx: 10, miny: -10, maxy: 10 };
    // The left edge already touches the region, so it cannot grow further.
    let env = Envelope { minx: -10, maxx: 5, miny: -5, maxy: 5 };
    let edges = eligible_edges(&env, &region, true);
    assert_eq!(edges, vec![EdgeKind::MaxX, EdgeKind::MinY, EdgeKind::MaxY]);
}

#[test]
fn eligible_edges_when_shrinking() {
    let region = Envelope { minx: -10, maxx: 10, miny: -10, maxy: 10 };
    // The vertical axis has collapsed, so only the horizontal edges can
    // still move inward.
    let env = Envelope { minx: 0, maxx: 4, miny: 3, maxy: 3 };
    let edges = eligible_edges(&env, &region, false);
    assert_eq!(edges, vec![EdgeKind::MinX, EdgeKind::MaxX]);
}

#[test]
fn tier_sizes_are_fixed() {
    assert_eq!(tier_sizes(), vec![16, 64, 256, 1024, 4096]);
}

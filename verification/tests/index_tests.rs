use spatialbench::envelope::{Envelope, Position};
use spatialbench::index::{Element, PointIndex};

fn elem(x: i64, y: i64, id: u32) -> Element<u32> {
    Element { pos: Position { x, y }, payload: id }
}

#[test]
fn envelope_contains_edges() {
    let env = Envelope { minx: -2, maxx: 3, miny: 0, maxy: 5 };
    assert!(env.contains(&Position { x: -2, y: 0 }));
    assert!(env.contains(&Position { x: 3, y: 5 }));
    assert!(env.contains(&Position { x: 0, y: 2 }));
    assert!(!env.contains(&Position { x: -3, y: 2 }));
    assert!(!env.contains(&Position { x: 0, y: 6 }));
}

#[test]
fn envelope_contains_env() {
    let outer = Envelope { minx: -10, maxx: 10, miny: -10, maxy: 10 };
    let inner = Envelope { minx: -1, maxx: 1, miny: 0, maxy: 10 };
    assert!(outer.contains_env(&inner));
    assert!(!inner.contains_env(&outer));
}

#[test]
fn query_count_exact() {
    let index = PointIndex::build(vec![
        elem(0, 0, 1),
        elem(1, 1, 2),
        elem(2, 2, 3),
        elem(10, 10, 4),
    ]);
    assert_eq!(index.count(), 4);
    assert_eq!(index.query_count(&Envelope { minx: 0, maxx: 2, miny: 0, maxy: 2 }), 3);
    assert_eq!(index.query_count(&Envelope { minx: 0, maxx: 10, miny: 0, maxy: 10 }), 4);
    assert_eq!(index.query_count(&Envelope { minx: 5, maxx: 6, miny: 5, maxy: 6 }), 0);
}

#[test]
fn query_returns_matching_elements_in_order() {
    let index = PointIndex::build(vec![elem(0, 0, 1), elem(5, 5, 2), elem(1, 1, 3)]);
    let hits = index.query(&Envelope { minx: 0, maxx: 1, miny: 0, maxy: 1 });
    let ids: Vec<u32> = hits.iter().map(|e| e.payload).collect();
    assert_eq!(ids, vec![1, 3]);
}

#[test]
fn query_count_duplicate_positions() {
    let index = PointIndex::build(vec![elem(7, 7, 1), elem(7, 7, 2), elem(7, 7, 3)]);
    assert_eq!(index.query_count(&Envelope { minx: 7, maxx: 7, miny: 7, maxy: 7 }), 3);
}

#[test]
fn extent_is_tight() {
    let index = PointIndex::build(vec![elem(3, -4, 1), elem(-1, 9, 2), elem(2, 0, 3)]);
    let extent = index.extent();
    assert_eq!(extent, Envelope { minx: -1, maxx: 3, miny: -4, maxy: 9 });
}

#[test]
fn extent_single_point() {
    let index = PointIndex::build(vec![elem(5, 6, 1)]);
    assert_eq!(index.extent(), Envelope { minx: 5, maxx: 5, miny: 6, maxy: 6 });
}

#[test]
fn footprint_matches_element_size() {
    let index = PointIndex::build(vec![elem(0, 0, 1), elem(1, 1, 2)]);
    let expected = 2 * std::mem::size_of::<Element<u32>>();
    assert_eq!(index.footprint_bytes(), Some(expected));
}

use auto_dungeon::coordinates::Coordinates;
use std::collections::hash_map::DefaultHasher;
use std::collections::HashSet;
use std::hash::{Hash, Hasher};

fn at(q: i32, r: i32) -> Coordinates {
    Coordinates { q, r }
}

#[test]
fn third_coordinate_closes_the_sum() {
    assert_eq!(at(3, -5).s(), 2);
    assert_eq!(at(0, 0).s(), 0);
    assert_eq!(at(i32::MIN, i32::MIN).s(), 4294967296);
}

#[test]
fn distance_to_itself_is_zero() {
    for q in -4..=4 {
        for r in -4..=4 {
            assert_eq!(at(q, r).distance_to(&at(q, r)), 0);
        }
    }
}

#[test]
fn distance_is_symmetric() {
    let a = at(3, -7);
    let b = at(-2, 9);
    assert_eq!(a.distance_to(&b), 16);
    assert_eq!(b.distance_to(&a), 16);
}

#[test]
fn distance_meets_the_triangle_inequality() {
    let points = [at(0, 0), at(5, -2), at(-3, -3), at(7, 7), at(-1, 4)];
    for a in points.iter() {
        for b in points.iter() {
            for c in points.iter() {
                assert!(a.distance_to(c) <= a.distance_to(b) + b.distance_to(c));
            }
        }
    }
}

#[test]
fn distance_has_exact_values() {
    assert_eq!(at(0, 0).distance_to(&at(2, -5)), 5);
    assert_eq!(at(0, 0).distance_to(&at(3, 3)), 6);
    assert_eq!(at(1, 1).distance_to(&at(2, 0)), 1);
    assert_eq!(at(-4, 2).distance_to(&at(4, -2)), 8);
}

#[test]
fn distance_spans_the_whole_lattice() {
    let low = at(i32::MIN, i32::MIN);
    let high = at(i32::MAX, i32::MAX);
    assert_eq!(low.distance_to(&high), 8589934590);
    assert_eq!(at(i32::MIN, 0).distance_to(&at(i32::MAX, 0)), 4294967295);
}

#[test]
fn shift_translates() {
    assert_eq!(at(1, 2).shift(3, -4), at(4, -2));
    assert_eq!(at(1, 2).shift(0, 0), at(1, 2));
    assert_eq!(at(-2, 0).shift(-2, 0), at(-4, 0));
}

#[test]
fn shift_wraps_at_the_ends_of_the_lattice() {
    assert_eq!(at(i32::MAX, 0).shift(1, 0), at(i32::MIN, 0));
    assert_eq!(at(0, i32::MIN).shift(0, -1), at(0, i32::MAX));
    assert_eq!(at(2, -5).shift(i32::MAX, 0), at(i32::MIN + 1, -5));
}

#[test]
fn neighbors_come_in_the_six_directions() {
    let n = at(2, -5).neighbors();
    assert_eq!(n, [at(3, -5), at(3, -6), at(2, -6), at(1, -5), at(1, -4), at(2, -4)]);
}

#[test]
fn neighbors_are_six_distinct_positions_one_step_away() {
    for q in -3..=3 {
        for r in -3..=3 {
            let c = at(q, r);
            let n = c.neighbors();
            let distinct: HashSet<Coordinates> = n.iter().copied().collect();
            assert_eq!(distinct.len(), 6);
            for other in n.iter() {
                assert_eq!(c.distance_to(other), 1);
            }
        }
    }
}

#[test]
fn neighbors_at_the_end_of_the_lattice_wrap() {
    let n = at(i32::MAX, 0).neighbors();
    assert_eq!(n[0], at(i32::MIN, 0));
    let distinct: HashSet<Coordinates> = n.iter().copied().collect();
    assert_eq!(distinct.len(), 6);
}

#[derive(Hash)]
struct Pair {
    q: i32,
    r: i32,
}

fn std_hash(q: i32, r: i32) -> u64 {
    let mut hasher = DefaultHasher::new();
    Pair { q, r }.hash(&mut hasher);
    hasher.finish()
}

#[test]
fn quick_hash_is_stable() {
    let c = at(12, -7);
    assert_eq!(c.quick_hash(), c.quick_hash());
    assert_eq!(c.quick_hash(), at(12, -7).quick_hash());
}

#[test]
fn quick_hash_tells_positions_apart() {
    assert_ne!(at(1, 0).quick_hash(), at(0, 1).quick_hash());
    assert_ne!(at(0, 0).quick_hash(), at(0, 1).quick_hash());
    assert_ne!(at(-1, -1).quick_hash(), at(1, 1).quick_hash());
}

#[test]
fn quick_hash_is_the_default_hash_of_the_pair() {
    if 1u32.to_ne_bytes() == 1u32.to_le_bytes() {
        for (q, r) in [(0, 0), (1, -1), (-300, 7), (i32::MIN, i32::MAX), (65536, -65537)] {
            assert_eq!(at(q, r).quick_hash(), std_hash(q, r));
        }
    }
}

//! The hex disk: every position within a given distance of a centre.

use crate::coordinates::{abs, hex_distance, saturate, saturate_to_i32, Coordinates};
use vstd::prelude::*;
use vstd::set_lib::lemma_set_disjoint_lens;

verus! {

/// The positions within `radius` steps of `center`. Empty when `radius` is
/// negative.
pub open spec fn hex_disk(center: Coordinates, radius: int) -> Set<Coordinates> {
    Set::new(|c: Coordinates| hex_distance(center, c) <= radius)
}

/// The number of positions of a hex disk of the given radius that no end of
/// the lattice cuts: `3r² + 3r + 1`, and none for a negative radius.
pub open spec fn hex_disk_size(radius: int) -> int {
    if radius < 0 {
        0
    } else {
        3 * radius * radius + 3 * radius + 1
    }
}

/// Whether the disk round `center` reaches no end of the lattice.
pub open spec fn disk_in_lattice(center: Coordinates, radius: int) -> bool {
    &&& i32::MIN <= center.q - radius
    &&& center.q + radius <= i32::MAX
    &&& i32::MIN <= center.r - radius
    &&& center.r + radius <= i32::MAX
}

/// The order in which an area lists its positions: by `q`, then by `r`.
pub open spec fn scan_before(a: Coordinates, b: Coordinates) -> bool {
    a.q < b.q || (a.q == b.q && a.r < b.r)
}

/// A position is within `radius` of another exactly when each of the three
/// cube coordinates differs by at most `radius`.
pub proof fn lemma_distance_bound(a: Coordinates, b: Coordinates, radius: int)
    ensures
        hex_distance(a, b) <= radius <==> {
            &&& abs(b.q - a.q) <= radius
            &&& abs(b.r - a.r) <= radius
            &&& abs((b.q - a.q) + (b.r - a.r)) <= radius
        },
{
}

/// The positions of column `q` whose `r` lies in `lo..=hi`.
spec fn column(q: int, lo: int, hi: int) -> Set<Coordinates> {
    Set::new(|c: Coordinates| c.q == q && lo <= c.r <= hi)
}

proof fn lemma_column_size(q: int, lo: int, hi: int)
    requires
        i32::MIN <= q <= i32::MAX,
        i32::MIN <= lo,
        hi <= i32::MAX,
        lo <= hi + 1,
    ensures
        column(q, lo, hi).finite(),
        column(q, lo, hi).len() == hi - lo + 1,
    decreases hi - lo + 1,
{
    if hi < lo {
        assert(column(q, lo, hi) =~= Set::empty());
    } else {
        lemma_column_size(q, lo, hi - 1);
        let top = Coordinates { q: q as i32, r: hi as i32 };
        assert(column(q, lo, hi) =~= column(q, lo, hi - 1).insert(top));
    }
}

/// The part of the disk whose columns lie at most `k` to the right of the
/// centre.
spec fn disk_upto(center: Coordinates, radius: int, k: int) -> Set<Coordinates> {
    Set::new(|c: Coordinates| hex_distance(center, c) <= radius && c.q - center.q <= k)
}

/// Twice the number of positions in the columns `-radius..=k` of a disk.
spec fn twice_columns_size(radius: int, k: int) -> int {
    if k <= 0 {
        (k + radius + 1) * (3 * radius + 2 + k)
    } else {
        (radius + 1) * (3 * radius + 2) + 2 * k * (2 * radius + 1) - k * (k + 1)
    }
}

proof fn lemma_twice_columns_step(radius: int, k: int)
    requires
        0 <= radius,
        -radius <= k <= radius,
    ensures
        twice_columns_size(radius, k) == twice_columns_size(radius, k - 1) + 2 * (2 * radius + 1
            - abs(k)),
        twice_columns_size(radius, radius) == 2 * hex_disk_size(radius),
{
    assert(twice_columns_size(radius, k) == twice_columns_size(radius, k - 1) + 2 * (2 * radius + 1
        - abs(k))) by (nonlinear_arith)
        requires
            0 <= radius,
            -radius <= k <= radius,
    ;
    assert(twice_columns_size(radius, radius) == 2 * hex_disk_size(radius)) by (nonlinear_arith)
        requires
            0 <= radius,
    ;
}

proof fn lemma_disk_upto_size(center: Coordinates, radius: int, k: int)
    requires
        0 <= radius,
        disk_in_lattice(center, radius),
        -radius - 1 <= k <= radius,
    ensures
        disk_upto(center, radius, k).finite(),
        2 * disk_upto(center, radius, k).len() == twice_columns_size(radius, k),
    decreases k + radius + 1,
{
    if k == -radius - 1 {
        assert forall|c: Coordinates| !disk_upto(center, radius, k).contains(c) by {
            lemma_distance_bound(center, c, radius);
        }
        assert(disk_upto(center, radius, k) =~= Set::empty());
        assert(twice_columns_size(radius, -radius - 1) == 0) by (nonlinear_arith)
            requires
                0 <= radius,
        ;
    } else {
        lemma_disk_upto_size(center, radius, k - 1);
        lemma_twice_columns_step(radius, k);
        let lo = center.r + (if k < 0 { -radius - k } else { -radius });
        let hi = center.r + (if k < 0 { radius } else { radius - k });
        let col = column(center.q + k, lo, hi);
        let rest = disk_upto(center, radius, k - 1);
        lemma_column_size(center.q + k, lo, hi);
        assert forall|c: Coordinates| disk_upto(center, radius, k).contains(c) <==> rest.contains(
            c,
        ) || col.contains(c) by {
            lemma_distance_bound(center, c, radius);
        }
        assert(disk_upto(center, radius, k) =~= rest + col);
        assert(rest.disjoint(col));
        lemma_set_disjoint_lens(rest, col);
    }
}

/// A hex disk of radius `r >= 0` that no end of the lattice cuts holds
/// `3r² + 3r + 1` positions.
pub proof fn lemma_hex_disk_size(center: Coordinates, radius: int)
    requires
        0 <= radius,
        disk_in_lattice(center, radius),
    ensures
        hex_disk(center, radius).finite(),
        hex_disk(center, radius).len() == hex_disk_size(radius),
{
    lemma_disk_upto_size(center, radius, radius);
    lemma_twice_columns_step(radius, radius);
    assert forall|c: Coordinates| hex_disk(center, radius).contains(c) implies disk_upto(
        center,
        radius,
        radius,
    ).contains(c) by {
        lemma_distance_bound(center, c, radius);
    }
    assert(hex_disk(center, radius) =~= disk_upto(center, radius, radius));
}

/// A hex disk of negative radius holds no position.
pub proof fn lemma_hex_disk_negative_radius(center: Coordinates, radius: int)
    requires
        radius < 0,
    ensures
        hex_disk(center, radius) == Set::<Coordinates>::empty(),
{
    assert(hex_disk(center, radius) =~= Set::empty());
}

impl Coordinates {
    /// Lists the hex disk of the given radius round `center`, by `q` and then
    /// by `r`. A negative radius gives an empty list.
    pub fn build_hexagonal_area(center: Coordinates, radius: i32) -> (area: Vec<Coordinates>)
        ensures
            forall|c: Coordinates| area@.contains(c) <==> hex_distance(center, c) <= radius,
            forall|i: int, j: int|
                0 <= i < j < area.len() ==> scan_before(#[trigger] area[i], #[trigger] area[j]),
            area@.no_duplicates(),
            area@.to_set() == hex_disk(center, radius as int),
            disk_in_lattice(center, radius as int) ==> area.len() == hex_disk_size(radius as int),
    {
        let mut area: Vec<Coordinates> = Vec::new();
        let first_q: i64 = saturate_to_i32(center.q as i128 - radius as i128) as i64;
        let last_q: i64 = saturate_to_i32(center.q as i128 + radius as i128) as i64;
        let first_r: i64 = saturate_to_i32(center.r as i128 - radius as i128) as i64;
        let last_r: i64 = saturate_to_i32(center.r as i128 + radius as i128) as i64;
        let mut q: i64 = first_q;
        while q <= last_q
            invariant
                first_q == saturate(center.q - radius),
                last_q == saturate(center.q + radius),
                first_r == saturate(center.r - radius),
                last_r == saturate(center.r + radius),
                first_q <= q,
                forall|c: Coordinates|
                    area@.contains(c) <==> hex_distance(center, c) <= radius && c.q < q,
                forall|i: int, j: int|
                    0 <= i < j < area.len() ==> scan_before(
                        #[trigger] area[i],
                        #[trigger] area[j],
                    ),
            decreases last_q + 1 - q,
        {
            let mut r: i64 = first_r;
            while r <= last_r
                invariant
                    first_q == saturate(center.q - radius),
                    last_q == saturate(center.q + radius),
                    first_r == saturate(center.r - radius),
                    last_r == saturate(center.r + radius),
                    first_q <= q <= last_q,
                    first_r <= r,
                    forall|c: Coordinates|
                        area@.contains(c) <==> hex_distance(center, c) <= radius && (c.q < q || (c.q
                            == q && c.r < r)),
                    forall|i: int, j: int|
                        0 <= i < j < area.len() ==> scan_before(
                            #[trigger] area[i],
                            #[trigger] area[j],
                        ),
                decreases last_r + 1 - r,
            {
                let target = Coordinates { q: q as i32, r: r as i32 };
                if center.distance_to(&target) <= radius as i64 {
                    let ghost before = area@;
                    area.push(target);
                    proof {
                        assert forall|c: Coordinates|
                            area@.contains(c) <==> hex_distance(center, c) <= radius && (c.q < q
                                || (c.q == q && c.r < r + 1)) by {
                            if before.contains(c) {
                                let i = choose|i: int| 0 <= i < before.len() && before[i] == c;
                                assert(area@[i] == c);
                            }
                            if c == target {
                                assert(area@[before.len() as int] == c);
                            }
                        }
                        assert forall|i: int, j: int| 0 <= i < j < area.len() implies scan_before(
                            #[trigger] area[i],
                            #[trigger] area[j],
                        ) by {
                            if j == before.len() {
                                assert(before.contains(before[i]));
                            }
                        }
                    }
                }
                r = r + 1;
            }
            proof {
                assert forall|c: Coordinates|
                    area@.contains(c) <==> hex_distance(center, c) <= radius && c.q < q + 1 by {
                    lemma_distance_bound(center, c, radius as int);
                }
            }
            q = q + 1;
        }
        proof {
            assert forall|c: Coordinates| area@.contains(c) <==> hex_distance(center, c)
                <= radius by {
                lemma_distance_bound(center, c, radius as int);
            }
            assert forall|i: int, j: int| 0 <= i < j < area.len() implies area@[i] != area@[j] by {
                assert(scan_before(area[i], area[j]));
            }
            assert(area@.to_set() =~= hex_disk(center, radius as int));
            area@.unique_seq_to_set();
            if disk_in_lattice(center, radius as int) {
                if radius >= 0 {
                    lemma_hex_disk_size(center, radius as int);
                } else {
                    lemma_hex_disk_negative_radius(center, radius as int);
                }
            }
        }
        area
    }
}

} // verus!

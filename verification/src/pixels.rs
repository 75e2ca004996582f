//! The layout of the lattice in pixels, and the way back from a pixel to the
//! position it lies on.

use crate::coordinates::{saturate, saturate_to_i32, Coordinates};
use vstd::arithmetic::div_mod::lemma_fundamental_div_mod_converse;
use vstd::prelude::*;

verus! {

/// The size of a hexagon, in pixels, that the layout uses unless it is given
/// another.
pub const PIXEL_PER_HEXAGON: u32 = 15;

/// The horizontal distance, in pixels, between two columns of the layout:
/// `16/15` of the hexagon's size, rounded to the nearest integer. A step in
/// `q` moves a position by two of them, a step in `r` by one.
pub open spec fn column_step(hex_pixel_size: int) -> int {
    (32 * hex_pixel_size + 15) / 30
}

/// The horizontal pixel offset of a position `(dq, dr)` steps from the
/// reference position.
pub open spec fn pixel_x(dq: int, dr: int, hex_pixel_size: int) -> int {
    column_step(hex_pixel_size) * (2 * dq + dr)
}

/// The vertical pixel offset of a position `dr` rows from the reference
/// position: `7/5` of the hexagon's size per row, rounded to the nearest
/// integer.
pub open spec fn pixel_y(dr: int, hex_pixel_size: int) -> int {
    (14 * (hex_pixel_size * dr) + 5) / 10
}

/// The pixel offset of `c` from `center`, each component brought into the
/// range of `i32`.
pub open spec fn spec_pixel_offset(c: Coordinates, center: Coordinates, hex_pixel_size: int) -> (
    i32,
    i32,
) {
    (
        saturate(pixel_x(c.q - center.q, c.r - center.r, hex_pixel_size)),
        saturate(pixel_y(c.r - center.r, hex_pixel_size)),
    )
}

/// Whether the pixel offset of `c` from `center` fits in `i32` as it is.
pub open spec fn offset_in_range(c: Coordinates, center: Coordinates, hex_pixel_size: int) -> bool {
    &&& i32::MIN <= pixel_x(c.q - center.q, c.r - center.r, hex_pixel_size) <= i32::MAX
    &&& i32::MIN <= pixel_y(c.r - center.r, hex_pixel_size) <= i32::MAX
}

/// The row, counted from the reference position, whose centre line is
/// nearest to the vertical offset `y`.
pub open spec fn row_of_pixel(y: int, hex_pixel_size: int) -> int {
    (10 * y + 7 * hex_pixel_size) / (14 * hex_pixel_size)
}

/// The column, counted from the reference position, nearest to the
/// horizontal offset `x` on row `dr`.
pub open spec fn column_of_pixel(x: int, dr: int, hex_pixel_size: int) -> int {
    (x - column_step(hex_pixel_size) * dr + column_step(hex_pixel_size)) / (2 * column_step(
        hex_pixel_size,
    ))
}

/// The position whose pixel offset from `center` is nearest to `pixel`: first
/// the nearest row, then the nearest column on that row. A pixel near the
/// border between two hexagons may land on the one beside it. With hexagons
/// of size zero every position lies on the same pixel, and the answer is
/// `center`.
pub open spec fn spec_coordinate_from_pixel(
    pixel: (i32, i32),
    center: Coordinates,
    hex_pixel_size: int,
) -> Coordinates {
    if hex_pixel_size <= 0 {
        center
    } else {
        let dr = row_of_pixel(pixel.1 as int, hex_pixel_size);
        let dq = column_of_pixel(pixel.0 as int, dr, hex_pixel_size);
        Coordinates { q: saturate(center.q + dq), r: saturate(center.r + dr) }
    }
}

/// `a / b` rounded towards minus infinity.
fn floor_div(a: i128, b: i128) -> (d: i128)
    requires
        0 < b < 0x1_0000_0000_0000_0000,
        -0x1_0000_0000_0000_0000_0000 < a < 0x1_0000_0000_0000_0000_0000,
    ensures
        d == a / b,
{
    if a >= 0 {
        a / b
    } else {
        let up: i128 = (b - 1 - a) / b;
        proof {
            let m = (b - 1 - a) as int;
            let bi = b as int;
            let k = m / bi;
            vstd::arithmetic::div_mod::lemma_fundamental_div_mod(m, bi);
            let rem = m % bi;
            assert(m == bi * k + rem);
            assert(0 <= rem < bi) by {
                vstd::arithmetic::div_mod::lemma_mod_bound(m, bi);
            }
            assert(bi * (-k) == -(bi * k)) by (nonlinear_arith);
            lemma_fundamental_div_mod_converse(a as int, bi, -k, bi - 1 - rem);
        }
        -up
    }
}

proof fn lemma_column_step_bounds(hex_pixel_size: int)
    requires
        0 <= hex_pixel_size <= u32::MAX,
    ensures
        0 <= column_step(hex_pixel_size) <= 0x1_2000_0000,
        hex_pixel_size >= 1 ==> column_step(hex_pixel_size) >= 1,
{
}

impl Coordinates {
    /// The pixel offset of this position from `center`, for hexagons of the
    /// given size.
    pub fn pixel_offset(&self, center: &Coordinates, hex_pixel_size: u32) -> (offset: (i32, i32))
        ensures
            offset == spec_pixel_offset(*self, *center, hex_pixel_size as int),
    {
        let dq: i128 = self.q as i128 - center.q as i128;
        let dr: i128 = self.r as i128 - center.r as i128;
        let size: i128 = hex_pixel_size as i128;
        let step: i128 = (32 * size + 15) / 30;
        let across: i128 = 2 * dq + dr;
        proof {
            lemma_column_step_bounds(size as int);
            assert(-0x1_0000_0000_0000_0000_0000 < step * across < 0x1_0000_0000_0000_0000_0000)
                by (nonlinear_arith)
                requires
                    0 <= step <= 0x1_2000_0000,
                    -0x4_0000_0000 < across < 0x4_0000_0000,
            ;
            assert(-0x1_0000_0000_0000_0000 < size * dr < 0x1_0000_0000_0000_0000)
                by (nonlinear_arith)
                requires
                    0 <= size < 0x1_0000_0000,
                    -0x1_0000_0000 < dr < 0x1_0000_0000,
            ;
        }
        let x: i128 = step * across;
        let y: i128 = floor_div(14 * (size * dr) + 5, 10);
        (saturate_to_i32(x), saturate_to_i32(y))
    }

    /// The pixel offset of this position from `center`, for hexagons of the
    /// usual size: sixteen pixels from column to column, twenty-one from row
    /// to row.
    pub fn as_offset(&self, center: &Coordinates) -> (offset: (i32, i32))
        ensures
            offset == spec_pixel_offset(*self, *center, PIXEL_PER_HEXAGON as int),
            offset.0 == saturate(16 * (2 * (self.q - center.q) + (self.r - center.r))),
            offset.1 == saturate(21 * (self.r - center.r)),
    {
        self.pixel_offset(center, PIXEL_PER_HEXAGON)
    }

    /// The position whose pixel offset from `center` is nearest to `pixel`,
    /// for hexagons of the given size.
    pub fn coordinate_from_pixel(pixel: (i32, i32), center: &Coordinates, hex_pixel_size: u32) -> (c:
        Coordinates)
        ensures
            c == spec_coordinate_from_pixel(pixel, *center, hex_pixel_size as int),
    {
        if hex_pixel_size == 0 {
            return *center;
        }
        let size: i128 = hex_pixel_size as i128;
        let step: i128 = (32 * size + 15) / 30;
        let dr: i128 = floor_div(10 * (pixel.1 as i128) + 7 * size, 14 * size);
        proof {
            lemma_column_step_bounds(size as int);
            lemma_row_of_pixel_bounds(pixel.1 as int, size as int);
            assert(-0x100_0000_0000_0000_0000 < step * dr < 0x100_0000_0000_0000_0000)
                by (nonlinear_arith)
                requires
                    0 <= step <= 0x1_2000_0000,
                    -0x2_0000_0000 < dr < 0x2_0000_0000,
            ;
        }
        let dq: i128 = floor_div(pixel.0 as i128 - step * dr + step, 2 * step);
        proof {
            lemma_column_of_pixel_bounds(pixel.0 as int, dr as int, size as int);
        }
        Coordinates {
            q: saturate_to_i32(center.q as i128 + dq),
            r: saturate_to_i32(center.r as i128 + dr),
        }
    }
}

proof fn lemma_row_of_pixel_bounds(y: int, hex_pixel_size: int)
    requires
        i32::MIN <= y <= i32::MAX,
        1 <= hex_pixel_size <= u32::MAX,
    ensures
        -0x2_0000_0000 < row_of_pixel(y, hex_pixel_size) < 0x2_0000_0000,
{
    let x = 10 * y + 7 * hex_pixel_size;
    let d = 14 * hex_pixel_size;
    vstd::arithmetic::div_mod::lemma_fundamental_div_mod(x, d);
    vstd::arithmetic::div_mod::lemma_mod_bound(x, d);
    let k = x / d;
    assert(-0x2_0000_0000 < k < 0x2_0000_0000) by (nonlinear_arith)
        requires
            d >= 14,
            x == d * k + x % d,
            0 <= x % d < d,
            -0x6_0000_0000 < x < 0xc_0000_0000,
            d < 0xe_0000_0000,
    ;
}

proof fn lemma_column_of_pixel_bounds(x: int, dr: int, hex_pixel_size: int)
    requires
        i32::MIN <= x <= i32::MAX,
        -0x2_0000_0000 < dr < 0x2_0000_0000,
        1 <= hex_pixel_size <= u32::MAX,
    ensures
        -0x1_0000_0000_0000_0000 < column_of_pixel(x, dr, hex_pixel_size)
            < 0x1_0000_0000_0000_0000,
{
    let w = column_step(hex_pixel_size);
    lemma_column_step_bounds(hex_pixel_size);
    let n = x - w * dr + w;
    let d = 2 * w;
    vstd::arithmetic::div_mod::lemma_fundamental_div_mod(n, d);
    vstd::arithmetic::div_mod::lemma_mod_bound(n, d);
    let k = n / d;
    assert(-0x1_0000_0000_0000_0000 < k < 0x1_0000_0000_0000_0000) by (nonlinear_arith)
        requires
            1 <= w <= 0x1_2000_0000,
            d == 2 * w,
            n == d * k + n % d,
            0 <= n % d < d,
            n == x - w * dr + w,
            -0x8000_0000 <= x < 0x8000_0000,
            -0x2_0000_0000 < dr < 0x2_0000_0000,
    ;
}

/// Going from a position to its pixel offset and back arrives at the same
/// position, for hexagons of any size but zero, wherever the offset fits in
/// `i32`.
pub proof fn lemma_pixel_round_trip(c: Coordinates, center: Coordinates, hex_pixel_size: int)
    requires
        1 <= hex_pixel_size <= u32::MAX,
        offset_in_range(c, center, hex_pixel_size),
    ensures
        spec_coordinate_from_pixel(
            spec_pixel_offset(c, center, hex_pixel_size),
            center,
            hex_pixel_size,
        ) == c,
{
    let dq = c.q - center.q;
    let dr = c.r - center.r;
    let w = column_step(hex_pixel_size);
    let z = hex_pixel_size * dr;
    let x = pixel_x(dq, dr, hex_pixel_size);
    let y = pixel_y(dr, hex_pixel_size);
    assert(dr * (14 * hex_pixel_size) == 14 * z) by (nonlinear_arith)
        requires
            z == hex_pixel_size * dr,
    ;
    lemma_fundamental_div_mod_converse(
        10 * y + 7 * hex_pixel_size,
        14 * hex_pixel_size,
        dr,
        10 * y + 7 * hex_pixel_size - 14 * z,
    );
    assert(row_of_pixel(y, hex_pixel_size) == dr);
    assert(x - w * dr + w == dq * (2 * w) + w) by (nonlinear_arith)
        requires
            x == w * (2 * dq + dr),
    ;
    lemma_fundamental_div_mod_converse(x - w * dr + w, 2 * w, dq, w);
    assert(column_of_pixel(x, dr, hex_pixel_size) == dq);
}

/// The row and the column that a pixel is given are the nearest ones: the
/// pixel lies no more than half a row from the line of its row, and no more
/// than one column step from its position on that row.
pub proof fn lemma_pixel_lands_on_nearest(x: int, y: int, hex_pixel_size: int)
    requires
        1 <= hex_pixel_size,
    ensures
        ({
            let dr = row_of_pixel(y, hex_pixel_size);
            let dq = column_of_pixel(x, dr, hex_pixel_size);
            &&& -7 * hex_pixel_size <= 10 * y - 14 * (hex_pixel_size * dr) < 7 * hex_pixel_size
            &&& -column_step(hex_pixel_size) <= x - pixel_x(dq, dr, hex_pixel_size) < column_step(
                hex_pixel_size,
            )
        }),
{
    let w = column_step(hex_pixel_size);
    let dr = row_of_pixel(y, hex_pixel_size);
    let dq = column_of_pixel(x, dr, hex_pixel_size);
    let n = 10 * y + 7 * hex_pixel_size;
    let d = 14 * hex_pixel_size;
    vstd::arithmetic::div_mod::lemma_fundamental_div_mod(n, d);
    vstd::arithmetic::div_mod::lemma_mod_bound(n, d);
    assert(d * dr == 14 * (hex_pixel_size * dr)) by (nonlinear_arith)
        requires
            d == 14 * hex_pixel_size,
    ;
    let m = x - w * dr + w;
    vstd::arithmetic::div_mod::lemma_fundamental_div_mod(m, 2 * w);
    vstd::arithmetic::div_mod::lemma_mod_bound(m, 2 * w);
    assert((2 * w) * dq + w * dr == w * (2 * dq + dr)) by (nonlinear_arith);
}

} // verus!

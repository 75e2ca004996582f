//! Axial coordinates on a hexagonal lattice and their geometry.

use std::collections::hash_map::DefaultHasher;
use std::hash::Hasher;
use vstd::prelude::*;
use vstd::std_specs::hash::DefaultHasherAdditionalSpecFns;
use vstd::wrapping::i32_specs;

verus! {

/// The absolute value of an integer.
pub open spec fn abs(x: int) -> int {
    if x < 0 {
        -x
    } else {
        x
    }
}

/// The value of `i32` nearest to `x`.
pub open spec fn saturate(x: int) -> i32 {
    if x < i32::MIN {
        i32::MIN
    } else if x > i32::MAX {
        i32::MAX
    } else {
        x as i32
    }
}

/// Brings `x` into the range of `i32`, to the nearest end where it lies
/// outside.
pub(crate) fn saturate_to_i32(x: i128) -> (y: i32)
    ensures
        y == saturate(x as int),
{
    if x < i32::MIN as i128 {
        i32::MIN
    } else if x > i32::MAX as i128 {
        i32::MAX
    } else {
        x as i32
    }
}

/// A position `(q, r)` on the hexagonal lattice. The third cube coordinate
/// is implied: `s = -q - r`.
#[derive(Clone, Copy, Debug, PartialEq, Eq, Hash, Structural)]
pub struct Coordinates {
    pub q: i32,
    pub r: i32,
}

/// The number of steps between two lattice positions: half the sum of the
/// absolute differences of the three cube coordinates.
pub open spec fn hex_distance(a: Coordinates, b: Coordinates) -> int {
    (abs(a.q - b.q) + abs(a.r - b.r) + abs((a.q - b.q) + (a.r - b.r))) / 2
}

/// The four bytes of `v` in two's complement, the lowest first.
pub open spec fn le_bytes(v: i32) -> Seq<u8> {
    let u = if v < 0 {
        v + 0x1_0000_0000
    } else {
        v as int
    };
    seq![
        (u % 0x100) as u8,
        (u / 0x100 % 0x100) as u8,
        (u / 0x1_0000 % 0x100) as u8,
        (u / 0x100_0000) as u8,
    ]
}

fn bytes_of(v: i32) -> (bytes: Vec<u8>)
    ensures
        bytes@ == le_bytes(v),
{
    let u: u64 = if v < 0 {
        (v as i64 + 0x1_0000_0000) as u64
    } else {
        v as u64
    };
    let mut bytes: Vec<u8> = Vec::new();
    bytes.push((u % 0x100) as u8);
    bytes.push((u / 0x100 % 0x100) as u8);
    bytes.push((u / 0x1_0000 % 0x100) as u8);
    bytes.push((u / 0x100_0000) as u8);
    assert(bytes@ =~= le_bytes(v));
    bytes
}

/// The hash of a position: what the standard library's default hasher
/// returns after it was fed the bytes of `q` and then the bytes of `r`.
pub open spec fn spec_quick_hash(c: Coordinates) -> u64 {
    DefaultHasher::spec_finish(seq![le_bytes(c.q), le_bytes(c.r)])
}

impl Coordinates {
    /// The third cube coordinate, `-q - r`.
    pub open spec fn spec_s(self) -> int {
        -self.q - self.r
    }

    /// The third cube coordinate. It needs 64 bits: `-q - r` leaves the range
    /// of `i32` at the corners of the lattice.
    pub fn s(&self) -> (s: i64)
        ensures
            s == self.spec_s(),
            self.q + self.r + s == 0,
    {
        let q: i64 = self.q as i64;
        let r: i64 = self.r as i64;
        -q - r
    }

    /// This position moved by `(q_offset, r_offset)`. The lattice closes on
    /// itself at the ends of `i32`: a step past the last column arrives at the
    /// first one.
    pub open spec fn spec_shift(self, q_offset: i32, r_offset: i32) -> Coordinates {
        Coordinates {
            q: i32_specs::wrapping_add(self.q, q_offset),
            r: i32_specs::wrapping_add(self.r, r_offset),
        }
    }

    /// Whether the move by `(q_offset, r_offset)` stays inside the lattice,
    /// without passing one of its ends.
    pub open spec fn shift_in_range(self, q_offset: i32, r_offset: i32) -> bool {
        &&& i32::MIN <= self.q + q_offset <= i32::MAX
        &&& i32::MIN <= self.r + r_offset <= i32::MAX
    }

    /// The six positions next to this one, in the order `(+1, 0)`, `(+1, -1)`,
    /// `(0, -1)`, `(-1, 0)`, `(-1, +1)`, `(0, +1)`.
    pub open spec fn spec_neighbors(self) -> Seq<Coordinates> {
        seq![
            self.spec_shift(1, 0),
            self.spec_shift(1, -1i32),
            self.spec_shift(0, -1i32),
            self.spec_shift(-1i32, 0),
            self.spec_shift(-1i32, 1),
            self.spec_shift(0, 1),
        ]
    }

    /// Whether no neighbour of this position lies across an end of the
    /// lattice.
    pub open spec fn is_interior(self) -> bool {
        &&& i32::MIN < self.q < i32::MAX
        &&& i32::MIN < self.r < i32::MAX
    }

    /// Moves this position by `(q_offset, r_offset)`.
    pub fn shift(&self, q_offset: i32, r_offset: i32) -> (c: Coordinates)
        ensures
            c == self.spec_shift(q_offset, r_offset),
            self.shift_in_range(q_offset, r_offset) ==> c.q == self.q + q_offset && c.r == self.r
                + r_offset,
    {
        Coordinates { q: self.q.wrapping_add(q_offset), r: self.r.wrapping_add(r_offset) }
    }

    /// The six positions next to this one.
    pub fn neighbors(&self) -> (n: [Coordinates; 6])
        ensures
            n@ == self.spec_neighbors(),
    {
        let n = [
            self.shift(1, 0),
            self.shift(1, -1),
            self.shift(0, -1),
            self.shift(-1, 0),
            self.shift(-1, 1),
            self.shift(0, 1),
        ];
        assert(n@ =~= self.spec_neighbors());
        n
    }

    /// A hash of `(q, r)` that is the same on every call, to seed a choice
    /// that is made anew each time and must not change (which of several
    /// textures a tile shows).
    pub fn quick_hash(&self) -> (h: u64)
        ensures
            h == spec_quick_hash(*self),
    {
        let mut hasher = DefaultHasher::new();
        let q_bytes = bytes_of(self.q);
        hasher.write(q_bytes.as_slice());
        let r_bytes = bytes_of(self.r);
        hasher.write(r_bytes.as_slice());
        assert(hasher@ =~= seq![le_bytes(self.q), le_bytes(self.r)]);
        hasher.finish()
    }

    /// The distance to `to` in lattice steps.
    pub fn distance_to(&self, to: &Coordinates) -> (d: i64)
        ensures
            d == hex_distance(*self, *to),
            d >= 0,
    {
        let dq: i64 = self.q as i64 - to.q as i64;
        let dr: i64 = self.r as i64 - to.r as i64;
        let ds: i64 = self.s() - to.s();
        let aq: i64 = if dq < 0 { -dq } else { dq };
        let ar: i64 = if dr < 0 { -dr } else { dr };
        let a_s: i64 = if ds < 0 { -ds } else { ds };
        (aq + ar + a_s) / 2
    }
}

/// A position is at distance zero from itself.
pub proof fn lemma_distance_identity(a: Coordinates)
    ensures
        hex_distance(a, a) == 0,
{
}

/// The distance does not depend on the direction of travel.
pub proof fn lemma_distance_symmetric(a: Coordinates, b: Coordinates)
    ensures
        hex_distance(a, b) == hex_distance(b, a),
{
}

/// Going through a third position is never shorter than going straight.
pub proof fn lemma_distance_triangle(a: Coordinates, b: Coordinates, c: Coordinates)
    ensures
        hex_distance(a, c) <= hex_distance(a, b) + hex_distance(b, c),
{
}

/// A position has six neighbours, and no two of them are the same.
pub proof fn lemma_neighbors_distinct(c: Coordinates)
    ensures
        c.spec_neighbors().len() == 6,
        c.spec_neighbors().no_duplicates(),
{
}

/// Every neighbour of a position is one step away from it, unless the step
/// passes an end of the lattice.
pub proof fn lemma_neighbors_adjacent(c: Coordinates, i: int)
    requires
        c.is_interior(),
        0 <= i < 6,
    ensures
        hex_distance(c, c.spec_neighbors()[i]) == 1,
{
}

/// The positions one step away from a position are its six neighbours and
/// no others.
pub proof fn lemma_adjacent_is_neighbor(c: Coordinates, d: Coordinates)
    requires
        c.is_interior(),
    ensures
        hex_distance(c, d) == 1 <==> c.spec_neighbors().contains(d),
{
    let n = c.spec_neighbors();
    if hex_distance(c, d) == 1 {
        let dq = d.q - c.q;
        let dr = d.r - c.r;
        if dq == 1 && dr == 0 {
            assert(n[0] == d);
        } else if dq == 1 && dr == -1 {
            assert(n[1] == d);
        } else if dq == 0 && dr == -1 {
            assert(n[2] == d);
        } else if dq == -1 && dr == 0 {
            assert(n[3] == d);
        } else if dq == -1 && dr == 1 {
            assert(n[4] == d);
        } else {
            assert(dq == 0 && dr == 1);
            assert(n[5] == d);
        }
    }
    if n.contains(d) {
        let i = choose|i: int| 0 <= i < n.len() && n[i] == d;
        lemma_neighbors_adjacent(c, i);
    }
}

} // verus!

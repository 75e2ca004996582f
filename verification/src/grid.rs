//! The viewport grid: the tiles of the area in view, kept from one view to
//! the next where the two overlap.

use crate::area::{disk_in_lattice, hex_disk, hex_disk_size, lemma_hex_disk_size};
use crate::coordinates::{hex_distance, Coordinates};
use crate::terrain::{biome_of, classify_elevation, elevation_band, BiomeType, TerrainSample, TerrainType};
use std::collections::HashMap;
use vstd::prelude::*;
use vstd::set_lib::lemma_map_size;
use vstd::std_specs::hash::{axiom_spec_keys_iter, spec_keys_iter};
use vstd::std_specs::iter::IteratorSpec;

verus! {

/// A tile: the shape and the biome that choose its texture, and its
/// elevation band.
#[derive(Clone, Copy, Debug, PartialEq, Eq)]
pub struct Hexagon {
    pub texture_type: (TerrainType, BiomeType),
    pub height: u8,
}

impl Hexagon {
    /// The tile of terrain with the given sample: flat ground, the biome of
    /// the sample and the band of its height.
    pub open spec fn of_sample(sample: TerrainSample) -> Hexagon {
        Hexagon {
            texture_type: (
                TerrainType::Flat,
                biome_of(sample.height as int, sample.humidity as int),
            ),
            height: elevation_band(sample.height as int) as u8,
        }
    }

    /// The tile of terrain with the given sample.
    pub fn new(sample: &TerrainSample) -> (hexagon: Hexagon)
        ensures
            hexagon == Hexagon::of_sample(*sample),
    {
        Hexagon {
            texture_type: (TerrainType::Flat, BiomeType::new(sample.height, sample.humidity)),
            height: classify_elevation(sample.height),
        }
    }
}

/// The number under which the grid files the tile of a position: `q` in the
/// upper half, `r` in the lower, each counted from the lowest `i32`.
spec fn key_of(c: Coordinates) -> u64 {
    ((c.q - i32::MIN) * 0x1_0000_0000 + (c.r - i32::MIN)) as u64
}

/// The position that a number stands for.
spec fn position_of(key: u64) -> Coordinates {
    Coordinates {
        q: (key / 0x1_0000_0000 + i32::MIN) as i32,
        r: (key % 0x1_0000_0000 + i32::MIN) as i32,
    }
}

proof fn lemma_key_round_trip(c: Coordinates, key: u64)
    ensures
        position_of(key_of(c)) == c,
        key_of(position_of(key)) == key,
{
}

fn key(c: &Coordinates) -> (k: u64)
    ensures
        k == key_of(*c),
{
    let q: u64 = (c.q as i64 - i32::MIN as i64) as u64;
    let r: u64 = (c.r as i64 - i32::MIN as i64) as u64;
    q * 0x1_0000_0000 + r
}

fn position(key: u64) -> (c: Coordinates)
    ensures
        c == position_of(key),
{
    let q: i64 = (key / 0x1_0000_0000) as i64 + i32::MIN as i64;
    let r: i64 = (key % 0x1_0000_0000) as i64 + i32::MIN as i64;
    Coordinates { q: q as i32, r: r as i32 }
}

/// The tiles of the area in view, one for each of its positions.
pub struct Grid {
    hexagons: HashMap<u64, Hexagon>,
}

impl View for Grid {
    type V = Map<Coordinates, Hexagon>;

    /// The tile of each position that the grid holds.
    closed spec fn view(&self) -> Map<Coordinates, Hexagon> {
        Map::new(
            |c: Coordinates| self.hexagons@.contains_key(key_of(c)),
            |c: Coordinates| self.hexagons@[key_of(c)],
        )
    }
}

impl Grid {
    /// Builds the grid of `area`. The field is asked once for the sample of
    /// each position of the area.
    pub fn new<F: Fn(Coordinates) -> TerrainSample>(field: &F, area: &[Coordinates]) -> (grid:
        Result<Grid, &'static str>)
        requires
            forall|i: int| 0 <= i < area.len() ==> call_requires(field, (#[trigger] area[i],)),
        ensures
            grid is Ok,
            grid->Ok_0@.dom() == area@.to_set(),
            forall|c: Coordinates| #[trigger]
                area@.contains(c) ==> exists|sample: TerrainSample|
                    call_ensures(field, (c,), sample) && grid->Ok_0@[c] == Hexagon::of_sample(
                        sample,
                    ),
    {
        let mut grid = Grid { hexagons: HashMap::new() };
        assert(grid@ =~= Map::<Coordinates, Hexagon>::empty());
        grid.at(field, area);
        Ok(grid)
    }

    /// Moves the grid to `area`. A position of the area that the grid held
    /// keeps its tile, and the field is not asked about it; for every other
    /// position of the area the field is asked once for a sample. What the
    /// grid held outside the area is dropped.
    pub fn at<F: Fn(Coordinates) -> TerrainSample>(&mut self, field: &F, area: &[Coordinates])
        requires
            forall|i: int|
                0 <= i < area.len() && !old(self)@.contains_key(#[trigger] area[i])
                    ==> call_requires(field, (area[i],)),
        ensures
            final(self)@.dom() == area@.to_set(),
            forall|c: Coordinates| #[trigger]
                area@.contains(c) && old(self)@.contains_key(c) ==> final(self)@[c] == old(
                    self,
                )@[c],
            forall|c: Coordinates| #[trigger]
                area@.contains(c) && !old(self)@.contains_key(c) ==> exists|sample: TerrainSample|
                    call_ensures(field, (c,), sample) && final(self)@[c] == Hexagon::of_sample(
                        sample,
                    ),
    {
        let ghost before = self.hexagons@;
        let mut hexagons: HashMap<u64, Hexagon> = HashMap::new();
        let mut i: usize = 0;
        while i < area.len()
            invariant
                0 <= i <= area.len(),
                forall|j: int|
                    0 <= j < area.len() && !before.contains_key(key_of(#[trigger] area[j]))
                        ==> call_requires(field, (area[j],)),
                forall|k: u64| #[trigger]
                    hexagons@.contains_key(k) <==> exists|j: int|
                        0 <= j < i && key_of(#[trigger] area[j]) == k,
                forall|k: u64| #[trigger]
                    self.hexagons@.contains_key(k) <==> before.contains_key(k)
                        && !hexagons@.contains_key(k),
                forall|k: u64| #[trigger]
                    self.hexagons@.contains_key(k) ==> self.hexagons@[k] == before[k],
                forall|k: u64| #[trigger]
                    hexagons@.contains_key(k) && before.contains_key(k) ==> hexagons@[k]
                        == before[k],
                forall|k: u64| #[trigger]
                    hexagons@.contains_key(k) && !before.contains_key(k) ==> exists|
                        sample: TerrainSample,
                    |
                        call_ensures(field, (position_of(k),), sample) && hexagons@[k]
                            == Hexagon::of_sample(sample),
            decreases area.len() - i,
        {
            let coordinates = area[i];
            let k = key(&coordinates);
            proof {
                lemma_key_round_trip(coordinates, k);
            }
            if !hexagons.contains_key(&k) {
                let hexagon = match self.hexagons.remove(&k) {
                    Some(kept) => kept,
                    None => {
                        let sample = field(coordinates);
                        Hexagon::new(&sample)
                    },
                };
                hexagons.insert(k, hexagon);
            }
            i = i + 1;
        }
        self.hexagons = hexagons;
        proof {
            assert forall|c: Coordinates| final(self)@.dom().contains(c) <==> area@.to_set().contains(
                c,
            ) by {
                lemma_key_round_trip(c, 0);
                if area@.contains(c) {
                    let j = choose|j: int| 0 <= j < area@.len() && area@[j] == c;
                    assert(key_of(area[j]) == key_of(c));
                }
                if final(self)@.dom().contains(c) {
                    let j = choose|j: int| 0 <= j < area.len() && key_of(#[trigger] area[j]) == key_of(c);
                    lemma_key_round_trip(area[j], 0);
                    assert(area@[j] == c);
                }
            }
            assert(final(self)@.dom() =~= area@.to_set());
            assert forall|c: Coordinates| #[trigger]
                area@.contains(c) && !old(self)@.contains_key(c) implies exists|
                sample: TerrainSample,
            |
                call_ensures(field, (c,), sample) && final(self)@[c] == Hexagon::of_sample(
                    sample,
                ) by {
                lemma_key_round_trip(c, 0);
                assert(final(self)@.dom().contains(c));
            }
        }
    }

    /// The tile of a position, if the grid holds one.
    pub fn get(&self, coordinates: &Coordinates) -> (hexagon: Option<&Hexagon>)
        ensures
            match hexagon {
                Some(found) => self@.contains_key(*coordinates) && *found == self@[*coordinates],
                None => !self@.contains_key(*coordinates),
            },
    {
        let k = key(coordinates);
        self.hexagons.get(&k)
    }

    /// The positions that the grid holds a tile for, each once, in no
    /// order that a caller can count on.
    pub fn positions(&self) -> (positions: Vec<Coordinates>)
        ensures
            positions@.no_duplicates(),
            positions@.to_set() == self@.dom(),
    {
        let mut positions: Vec<Coordinates> = Vec::new();
        for k in keys: self.hexagons.keys()
            invariant
                positions@.len() == keys.index(),
                forall|i: int|
                    0 <= i < keys.index() ==> #[trigger] positions@[i] == position_of(
                        *keys.seq()[i],
                    ),
        {
            positions.push(position(*k));
        }
        proof {
            let walked = spec_keys_iter(&self.hexagons).remaining();
            axiom_spec_keys_iter(&self.hexagons);
            assert forall|i: int, j: int|
                0 <= i < positions@.len() && 0 <= j < positions@.len() && i != j implies positions@[i]
                != positions@[j] by {
                lemma_key_round_trip(positions@[i], *walked[i]);
                lemma_key_round_trip(positions@[j], *walked[j]);
                assert(walked[i] != walked[j]);
            }
            assert forall|c: Coordinates| positions@.to_set().contains(c) <==> self@.dom().contains(
                c,
            ) by {
                lemma_key_round_trip(c, 0);
                if positions@.contains(c) {
                    let i = choose|i: int| 0 <= i < positions@.len() && positions@[i] == c;
                    lemma_key_round_trip(c, *walked[i]);
                    assert(walked.unref()[i] == *walked[i]);
                    assert(walked.unref().to_set().contains(*walked[i]));
                }
                if self@.dom().contains(c) {
                    assert(walked.unref().to_set().contains(key_of(c)));
                    let i = choose|i: int|
                        0 <= i < walked.unref().len() && walked.unref()[i] == key_of(c);
                    assert(positions@[i] == c);
                }
            }
            assert(positions@.to_set() =~= self@.dom());
        }
        positions
    }

    /// The number of tiles of the grid.
    pub fn len(&self) -> (n: usize)
        ensures
            self@.dom().finite(),
            n == self@.dom().len(),
    {
        proof {
            let keys = self.hexagons@.dom();
            let positions = |k: u64| position_of(k);
            assert forall|k1: u64, k2: u64| #[trigger] positions(k1) == #[trigger] positions(k2) implies k1 == k2 by {
                lemma_key_round_trip(position_of(k1), k1);
                lemma_key_round_trip(position_of(k2), k2);
            }
            assert forall|c: Coordinates| keys.map(positions).contains(c) <==> self@.dom().contains(
                c,
            ) by {
                lemma_key_round_trip(c, 0);
                if self@.dom().contains(c) {
                    assert(keys.contains(key_of(c)) && positions(key_of(c)) == c);
                }
                if keys.map(positions).contains(c) {
                    let k = choose|k: u64| keys.contains(k) && positions(k) == c;
                    lemma_key_round_trip(c, k);
                }
            }
            assert(keys.map(positions) =~= self@.dom());
            lemma_map_size(keys, self@.dom(), positions);
        }
        self.hexagons.len()
    }
}

/// A grid whose area is a hex disk holds a tile for every position within
/// the radius of the centre and for no other; where no end of the lattice
/// cuts the disk, these are `3r² + 3r + 1` tiles.
pub proof fn lemma_grid_of_disk(
    tiles: Map<Coordinates, Hexagon>,
    center: Coordinates,
    radius: int,
)
    requires
        tiles.dom() == hex_disk(center, radius),
    ensures
        forall|c: Coordinates| tiles.contains_key(c) <==> hex_distance(center, c) <= radius,
        0 <= radius && disk_in_lattice(center, radius) ==> tiles.dom().finite() && tiles.dom().len()
            == hex_disk_size(radius),
{
    assert forall|c: Coordinates| tiles.contains_key(c) <==> hex_distance(center, c)
        <= radius by {
        assert(tiles.dom().contains(c) <==> hex_disk(center, radius).contains(c));
    }
    if 0 <= radius && disk_in_lattice(center, radius) {
        lemma_hex_disk_size(center, radius);
    }
}

} // verus!

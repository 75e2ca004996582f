//! Which texture a tile shows: where the image files of a texture type
//! lie, and which of them a position gets.

use crate::coordinates::{spec_quick_hash, Coordinates};
use crate::terrain::{BiomeType, TerrainType};
use rand::prelude::{IteratorRandom, StdRng};
use rand::SeedableRng;
use vstd::prelude::*;
use vstd::string::StringExecFns;

verus! {

/// The number of image files that each texture type has.
pub const TEXTURES_PER_TYPE: usize = 3;

/// What every path of an image file begins with.
pub open spec fn base_dir() -> Seq<char> {
    "assets/tiles/grid/hexset_grid_"@
}

impl BiomeType {
    /// The part of a file's name that stands for the biome.
    pub open spec fn spec_location(self) -> Seq<char> {
        match self {
            BiomeType::Boreal => "boreal_"@,
            BiomeType::Desert => "desert_"@,
            BiomeType::Snow => "snow_"@,
            BiomeType::Stone => "stone1_"@,
            BiomeType::Swamp => "swamp_"@,
            BiomeType::Temperate => "temperate_"@,
            BiomeType::Warm => "warm_"@,
            BiomeType::WDeep => "wdeep_"@,
            BiomeType::WShallow => "wshallow_"@,
        }
    }

    /// The part of a file's name that stands for the biome.
    pub fn location(&self) -> (name: &'static str)
        ensures
            name@ == self.spec_location(),
    {
        match self {
            BiomeType::Boreal => "boreal_",
            BiomeType::Desert => "desert_",
            BiomeType::Snow => "snow_",
            BiomeType::Stone => "stone1_",
            BiomeType::Swamp => "swamp_",
            BiomeType::Temperate => "temperate_",
            BiomeType::Warm => "warm_",
            BiomeType::WDeep => "wdeep_",
            BiomeType::WShallow => "wshallow_",
        }
    }
}

impl TerrainType {
    /// The end of the name of the file with the given number, for the
    /// numbers below `TEXTURES_PER_TYPE`.
    pub open spec fn spec_location(self, variant: int) -> Seq<char> {
        match self {
            TerrainType::Flat => if variant == 0 {
                "flat_01.png"@
            } else if variant == 1 {
                "flat_02.png"@
            } else {
                "flat_03.png"@
            },
            TerrainType::Hill => if variant == 0 {
                "hill_01.png"@
            } else if variant == 1 {
                "hill_02.png"@
            } else {
                "hill_03.png"@
            },
            TerrainType::Mont => if variant == 0 {
                "mont_01.png"@
            } else if variant == 1 {
                "mont_02.png"@
            } else {
                "mont_03.png"@
            },
            TerrainType::OFlat => if variant == 0 {
                "O_flat_01.png"@
            } else if variant == 1 {
                "O_flat_02.png"@
            } else {
                "O_flat_03.png"@
            },
        }
    }

    /// The end of the name of the file with the given number, if the
    /// terrain has a file of that number.
    pub fn location(&self, variant: usize) -> (name: Option<&'static str>)
        ensures
            name is Some <==> variant < TEXTURES_PER_TYPE,
            name matches Some(found) ==> found@ == self.spec_location(variant as int),
    {
        if variant >= TEXTURES_PER_TYPE {
            return None;
        }
        let name = match self {
            TerrainType::Flat => if variant == 0 {
                "flat_01.png"
            } else if variant == 1 {
                "flat_02.png"
            } else {
                "flat_03.png"
            },
            TerrainType::Hill => if variant == 0 {
                "hill_01.png"
            } else if variant == 1 {
                "hill_02.png"
            } else {
                "hill_03.png"
            },
            TerrainType::Mont => if variant == 0 {
                "mont_01.png"
            } else if variant == 1 {
                "mont_02.png"
            } else {
                "mont_03.png"
            },
            TerrainType::OFlat => if variant == 0 {
                "O_flat_01.png"
            } else if variant == 1 {
                "O_flat_02.png"
            } else {
                "O_flat_03.png"
            },
        };
        Some(name)
    }
}

/// The path of the image file with the given number for a texture type: the
/// base, the biome's part, the terrain's part.
pub open spec fn spec_texture_path(texture_type: (TerrainType, BiomeType), variant: int) -> Seq<
    char,
> {
    base_dir() + texture_type.1.spec_location() + texture_type.0.spec_location(variant)
}

/// The path of the image file with the given number for a texture type, if
/// the type has a file of that number.
pub fn texture_path(texture_type: &(TerrainType, BiomeType), variant: usize) -> (path: Option<
    String,
>)
    ensures
        path is Some <==> variant < TEXTURES_PER_TYPE,
        path matches Some(found) ==> found@ == spec_texture_path(*texture_type, variant as int),
{
    match texture_type.0.location(variant) {
        Some(name) => {
            let mut path = String::from_str("assets/tiles/grid/hexset_grid_");
            path.append(texture_type.1.location());
            path.append(name);
            Some(path)
        },
        None => None,
    }
}

/// The index that `rand` picks among `count` items with a generator seeded
/// with `seed`.
pub uninterp spec fn seeded_index(seed: u64, count: usize) -> usize;

/// Picks one of the indices below `count` with `rand`'s
/// `IteratorRandom::choose`, drawing from a `StdRng` that
/// `SeedableRng::seed_from_u64` made from `seed`. `choose` returns nothing
/// for an empty range and nothing else; the generator is a function of its
/// seed, so the same seed and count always give the same index, and the
/// index lies in the range.
#[verifier::external_body]
fn choose_index(seed: u64, count: usize) -> (index: Option<usize>)
    ensures
        match index {
            Some(chosen) => count > 0 && chosen < count && chosen == seeded_index(seed, count),
            None => count == 0,
        },
{
    (0..count).choose(&mut StdRng::seed_from_u64(seed))
}

/// Which of the `count` textures of its type the tile at `coordinates`
/// shows. The choice is seeded with the hash of the position, so a tile
/// shows the same texture every time it is drawn. There is none to choose
/// when `count` is zero.
pub fn texture_variant(coordinates: &Coordinates, count: usize) -> (variant: Option<usize>)
    ensures
        match variant {
            Some(chosen) => count > 0 && chosen < count && chosen == seeded_index(
                spec_quick_hash(*coordinates),
                count,
            ),
            None => count == 0,
        },
{
    choose_index(coordinates.quick_hash(), count)
}

} // verus!

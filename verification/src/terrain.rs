//! From a terrain sample to what a tile shows: its elevation band and its
//! biome.
//!
//! Heights and humidities are fixed-point numbers with three decimal places:
//! `1000` stands for `1.0`, `-300` for `-0.3`.

use crate::coordinates::{saturate, saturate_to_i32, Coordinates};
use crate::pixels::{spec_pixel_offset, PIXEL_PER_HEXAGON};
use vstd::prelude::*;
use vstd::wrapping::u32_specs;

verus! {

/// By how much the layout in pixels is shrunk before the terrain is sampled
/// at a position: two neighbouring tiles lie a sixteenth of a unit apart, so
/// that their terrain is alike.
pub const SAMPLING_ZOOM: i32 = 512;

/// What stands for `1.0` in a height or a humidity.
pub const SAMPLE_UNIT: i32 = 1000;

/// Added to a height before it is cut down to its band, so that a band
/// starts `0.4` below the whole number that names it.
pub const ELEVATION_BIAS: i32 = 400;

/// Below this height lies deep water.
pub const DEEP_WATER_BELOW: i32 = -300;

/// Below this height, and not deep, lies shallow water.
pub const SHALLOW_WATER_BELOW: i32 = 0;

/// Below this height, and above the water, lies the beach.
pub const BEACH_BELOW: i32 = 50;

/// Above this height lies snow.
pub const SNOW_ABOVE: i32 = 2500;

/// Above this height, and below the snow, lies bare stone.
pub const STONE_ABOVE: i32 = 1800;

/// Below this humidity the land is bare stone.
pub const STONE_HUMIDITY_BELOW: i32 = -800;

/// Below this humidity the land is desert.
pub const DESERT_HUMIDITY_BELOW: i32 = -500;

/// Below this humidity the land is warm.
pub const WARM_HUMIDITY_BELOW: i32 = 0;

/// Below this humidity the land is temperate.
pub const TEMPERATE_HUMIDITY_BELOW: i32 = 400;

/// Below this humidity the land is boreal; from it on, swamp.
pub const BOREAL_HUMIDITY_BELOW: i32 = 800;

/// The highest band a tile can have.
pub const HIGHEST_BAND: u8 = 255;

/// What stands for a height that is not a number. No rule on heights
/// applies to it, so the humidity decides its biome, and its band is the
/// lowest.
pub const UNDEFINED_HEIGHT: i32 = BEACH_BELOW;

/// What stands for a humidity that is not a number. It is below no border,
/// so it gives a swamp wherever the humidity decides.
pub const UNDEFINED_HUMIDITY: i32 = i32::MAX;

/// The height and the humidity of the terrain at one position.
#[derive(Clone, Copy, Debug, PartialEq, Eq, Structural)]
pub struct TerrainSample {
    pub height: i32,
    pub humidity: i32,
}

/// The shape of the ground of a tile.
#[derive(Clone, Copy, Debug, PartialEq, Eq, Hash, Structural)]
pub enum TerrainType {
    Flat,
    Hill,
    Mont,
    OFlat,
}

/// The kind of land or water of a tile.
#[derive(Clone, Copy, Debug, PartialEq, Eq, Hash, Structural)]
pub enum BiomeType {
    Snow,
    WDeep,
    WShallow,
    Swamp,
    Boreal,
    Temperate,
    Warm,
    Desert,
    Stone,
}

/// The elevation band of a height: the whole part of the height raised by
/// the bias, and no less than zero nor more than the highest band.
pub open spec fn elevation_band(height: int) -> int {
    let level = (height + ELEVATION_BIAS) / (SAMPLE_UNIT as int);
    if level < 0 {
        0
    } else if level > HIGHEST_BAND {
        HIGHEST_BAND as int
    } else {
        level
    }
}

/// The biome of a sample. The rules are tried in this order and the first
/// that applies decides: the height rules for water, beach and snow come
/// before every humidity rule.
pub open spec fn biome_of(height: int, humidity: int) -> BiomeType {
    if height < DEEP_WATER_BELOW {
        BiomeType::WDeep
    } else if height < SHALLOW_WATER_BELOW {
        BiomeType::WShallow
    } else if height < BEACH_BELOW {
        BiomeType::Desert
    } else if height > SNOW_ABOVE {
        BiomeType::Snow
    } else if humidity < STONE_HUMIDITY_BELOW || height > STONE_ABOVE {
        BiomeType::Stone
    } else if humidity < DESERT_HUMIDITY_BELOW {
        BiomeType::Desert
    } else if humidity < WARM_HUMIDITY_BELOW {
        BiomeType::Warm
    } else if humidity < TEMPERATE_HUMIDITY_BELOW {
        BiomeType::Temperate
    } else if humidity < BOREAL_HUMIDITY_BELOW {
        BiomeType::Boreal
    } else {
        BiomeType::Swamp
    }
}

/// Whether the height alone decides the biome: water, beach, snow and the
/// stone of the heights.
pub open spec fn height_decides(height: int) -> bool {
    height < BEACH_BELOW || height > STONE_ABOVE
}

/// The place of a biome among those that the humidity decides, from the
/// driest to the wettest.
pub open spec fn wetness(biome: BiomeType) -> int {
    match biome {
        BiomeType::Stone => 0,
        BiomeType::Desert => 1,
        BiomeType::Warm => 2,
        BiomeType::Temperate => 3,
        BiomeType::Boreal => 4,
        BiomeType::Swamp => 5,
        _ => 0,
    }
}

/// The seed of the humidity field of a world with the given seed: the next
/// one, and the first one after the last.
pub fn humidity_seed(seed: u32) -> (s: u32)
    ensures
        s == u32_specs::wrapping_add(seed, 1),
        seed < u32::MAX ==> s == seed + 1,
        seed == u32::MAX ==> s == 0,
{
    seed.wrapping_add(1)
}

/// Where the terrain of a position is sampled, in pixels: the mirror image
/// of the position's offset from the origin of the lattice, for hexagons of
/// the usual size.
pub open spec fn spec_sampling_position(c: Coordinates) -> (i32, i32) {
    let offset = spec_pixel_offset(c, Coordinates { q: 0, r: 0 }, PIXEL_PER_HEXAGON as int);
    (saturate(-offset.0), saturate(-offset.1))
}

/// Where the terrain of a position is sampled, in pixels. The field takes
/// its sample at this point divided by `SAMPLING_ZOOM`.
pub fn sampling_position(coordinates: &Coordinates) -> (position: (i32, i32))
    ensures
        position == spec_sampling_position(*coordinates),
{
    let (x, y) = coordinates.as_offset(&Coordinates { q: 0, r: 0 });
    (saturate_to_i32(-(x as i128)), saturate_to_i32(-(y as i128)))
}

/// The elevation band of a height.
pub fn classify_elevation(height: i32) -> (band: u8)
    ensures
        band == elevation_band(height as int),
{
    let raised: i64 = height as i64 + ELEVATION_BIAS as i64;
    if raised < 0 {
        0
    } else {
        let level: i64 = raised / (SAMPLE_UNIT as i64);
        if level > HIGHEST_BAND as i64 {
            HIGHEST_BAND
        } else {
            level as u8
        }
    }
}

impl BiomeType {
    /// The biome of terrain of the given height and humidity.
    pub fn new(height: i32, humidity: i32) -> (biome: BiomeType)
        ensures
            biome == biome_of(height as int, humidity as int),
    {
        if height < DEEP_WATER_BELOW {
            BiomeType::WDeep
        } else if height < SHALLOW_WATER_BELOW {
            BiomeType::WShallow
        } else if height < BEACH_BELOW {
            BiomeType::Desert
        } else if height > SNOW_ABOVE {
            BiomeType::Snow
        } else if humidity < STONE_HUMIDITY_BELOW || height > STONE_ABOVE {
            BiomeType::Stone
        } else if humidity < DESERT_HUMIDITY_BELOW {
            BiomeType::Desert
        } else if humidity < WARM_HUMIDITY_BELOW {
            BiomeType::Warm
        } else if humidity < TEMPERATE_HUMIDITY_BELOW {
            BiomeType::Temperate
        } else if humidity < BOREAL_HUMIDITY_BELOW {
            BiomeType::Boreal
        } else {
            BiomeType::Swamp
        }
    }
}

/// A higher terrain never has a lower band.
pub proof fn lemma_elevation_monotonic(low: int, high: int)
    requires
        low <= high,
    ensures
        elevation_band(low) <= elevation_band(high),
{
}

/// The band of a height within the bands is the whole number that the
/// height, raised by the bias, has reached.
pub proof fn lemma_elevation_band_range(height: int, band: int)
    requires
        0 <= band <= HIGHEST_BAND,
    ensures
        elevation_band(height) == band <==> {
            &&& (band == 0 || band * SAMPLE_UNIT - ELEVATION_BIAS <= height)
            &&& (band == HIGHEST_BAND || height < (band + 1) * SAMPLE_UNIT - ELEVATION_BIAS)
        },
{
}

/// Where the height decides, the humidity changes nothing: however the
/// humidity of a field is scaled or shifted, water stays water, the beach
/// stays beach and the heights stay stone or snow.
pub proof fn lemma_height_rules_come_first(height: int, humidity: int, other_humidity: int)
    requires
        height_decides(height),
    ensures
        biome_of(height, humidity) == biome_of(height, other_humidity),
{
}

/// Where the humidity decides, more humidity never gives a drier biome: a
/// change of the humidity moves the borders between the biomes and leaves
/// their order as it is.
pub proof fn lemma_wetter_is_never_drier(height: int, dry: int, wet: int)
    requires
        !height_decides(height),
        dry <= wet,
    ensures
        wetness(biome_of(height, dry)) <= wetness(biome_of(height, wet)),
{
}

/// A height that is not a number falls under no rule on heights and has the
/// lowest band; a humidity that is not a number is below no border.
pub proof fn lemma_undefined_sample(height: int, humidity: int)
    ensures
        !height_decides(UNDEFINED_HEIGHT as int),
        elevation_band(UNDEFINED_HEIGHT as int) == 0,
        !height_decides(height) ==> biome_of(UNDEFINED_HEIGHT as int, humidity) == biome_of(
            height,
            humidity,
        ),
        !height_decides(height) ==> biome_of(height, UNDEFINED_HUMIDITY as int) == BiomeType::Swamp,
{
}

/// The region of each biome, written without the order of the rules.
pub proof fn lemma_biome_regions(height: int, humidity: int)
    ensures
        biome_of(height, humidity) == BiomeType::WDeep <==> height < DEEP_WATER_BELOW,
        biome_of(height, humidity) == BiomeType::WShallow <==> DEEP_WATER_BELOW <= height
            < SHALLOW_WATER_BELOW,
        biome_of(height, humidity) == BiomeType::Snow <==> height > SNOW_ABOVE,
        biome_of(height, humidity) == BiomeType::Stone <==> BEACH_BELOW <= height <= SNOW_ABOVE && (
        humidity < STONE_HUMIDITY_BELOW || height > STONE_ABOVE),
        biome_of(height, humidity) == BiomeType::Desert <==> SHALLOW_WATER_BELOW <= height
            < BEACH_BELOW || (BEACH_BELOW <= height <= STONE_ABOVE && STONE_HUMIDITY_BELOW
            <= humidity < DESERT_HUMIDITY_BELOW),
        biome_of(height, humidity) == BiomeType::Warm <==> BEACH_BELOW <= height <= STONE_ABOVE
            && DESERT_HUMIDITY_BELOW <= humidity < WARM_HUMIDITY_BELOW,
        biome_of(height, humidity) == BiomeType::Temperate <==> BEACH_BELOW <= height
            <= STONE_ABOVE && WARM_HUMIDITY_BELOW <= humidity < TEMPERATE_HUMIDITY_BELOW,
        biome_of(height, humidity) == BiomeType::Boreal <==> BEACH_BELOW <= height <= STONE_ABOVE
            && TEMPERATE_HUMIDITY_BELOW <= humidity < BOREAL_HUMIDITY_BELOW,
        biome_of(height, humidity) == BiomeType::Swamp <==> BEACH_BELOW <= height <= STONE_ABOVE
            && BOREAL_HUMIDITY_BELOW <= humidity,
{
}

} // verus!

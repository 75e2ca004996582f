use auto_dungeon::coordinates::Coordinates;
use auto_dungeon::terrain::{BiomeType, TerrainType};
use auto_dungeon::textures::{texture_path, texture_variant, TEXTURES_PER_TYPE};
use rand::prelude::{IteratorRandom, StdRng};
use rand::SeedableRng;

#[test]
fn biome_locations() {
    assert_eq!(BiomeType::Boreal.location(), "boreal_");
    assert_eq!(BiomeType::Desert.location(), "desert_");
    assert_eq!(BiomeType::Snow.location(), "snow_");
    assert_eq!(BiomeType::Stone.location(), "stone1_");
    assert_eq!(BiomeType::Swamp.location(), "swamp_");
    assert_eq!(BiomeType::Temperate.location(), "temperate_");
    assert_eq!(BiomeType::Warm.location(), "warm_");
    assert_eq!(BiomeType::WDeep.location(), "wdeep_");
    assert_eq!(BiomeType::WShallow.location(), "wshallow_");
}

#[test]
fn terrain_locations() {
    assert_eq!(TEXTURES_PER_TYPE, 3);
    assert_eq!(TerrainType::Flat.location(0), Some("flat_01.png"));
    assert_eq!(TerrainType::Flat.location(1), Some("flat_02.png"));
    assert_eq!(TerrainType::Flat.location(2), Some("flat_03.png"));
    assert_eq!(TerrainType::Hill.location(0), Some("hill_01.png"));
    assert_eq!(TerrainType::Hill.location(1), Some("hill_02.png"));
    assert_eq!(TerrainType::Hill.location(2), Some("hill_03.png"));
    assert_eq!(TerrainType::Mont.location(0), Some("mont_01.png"));
    assert_eq!(TerrainType::Mont.location(1), Some("mont_02.png"));
    assert_eq!(TerrainType::Mont.location(2), Some("mont_03.png"));
    assert_eq!(TerrainType::OFlat.location(0), Some("O_flat_01.png"));
    assert_eq!(TerrainType::OFlat.location(1), Some("O_flat_02.png"));
    assert_eq!(TerrainType::OFlat.location(2), Some("O_flat_03.png"));
    assert_eq!(TerrainType::Flat.location(3), None);
    assert_eq!(TerrainType::OFlat.location(usize::MAX), None);
}

#[test]
fn texture_paths() {
    assert_eq!(
        texture_path(&(TerrainType::Flat, BiomeType::Boreal), 0),
        Some(String::from("assets/tiles/grid/hexset_grid_boreal_flat_01.png"))
    );
    assert_eq!(
        texture_path(&(TerrainType::Hill, BiomeType::Stone), 1),
        Some(String::from("assets/tiles/grid/hexset_grid_stone1_hill_02.png"))
    );
    assert_eq!(
        texture_path(&(TerrainType::OFlat, BiomeType::WShallow), 2),
        Some(String::from("assets/tiles/grid/hexset_grid_wshallow_O_flat_03.png"))
    );
    assert_eq!(texture_path(&(TerrainType::Flat, BiomeType::Boreal), 3), None);
}

#[test]
fn texture_variant_is_what_the_seeded_generator_picks() {
    for q in -6..=6 {
        for r in -6..=6 {
            let c = Coordinates { q, r };
            let items = [10, 20, 30];
            let picked = items.iter().choose(&mut StdRng::seed_from_u64(c.quick_hash())).unwrap();
            let variant = texture_variant(&c, 3).unwrap();
            assert!(variant < 3);
            assert_eq!(items[variant], *picked);
        }
    }
}

#[test]
fn texture_variant_does_not_change_between_calls() {
    let c = Coordinates { q: 17, r: -4 };
    let first = texture_variant(&c, 3);
    for _ in 0..10 {
        assert_eq!(texture_variant(&c, 3), first);
    }
}

#[test]
fn texture_variant_reaches_every_texture() {
    let mut seen = [false; 3];
    for q in 0..40 {
        seen[texture_variant(&Coordinates { q, r: 0 }, 3).unwrap()] = true;
    }
    assert_eq!(seen, [true, true, true]);
}

#[test]
fn texture_variant_of_nothing_is_none() {
    assert_eq!(texture_variant(&Coordinates { q: 0, r: 0 }, 0), None);
}

#[test]
fn texture_variant_of_one_is_the_first() {
    assert_eq!(texture_variant(&Coordinates { q: 5, r: 5 }, 1), Some(0));
}

#[test]
fn texture_variant_stays_below_the_count() {
    for count in 1..50 {
        let variant = texture_variant(&Coordinates { q: count as i32, r: -3 }, count).unwrap();
        assert!(variant < count);
    }
}

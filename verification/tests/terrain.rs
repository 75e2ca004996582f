use auto_dungeon::coordinates::Coordinates;
use auto_dungeon::terrain::{
    classify_elevation, humidity_seed, sampling_position, BiomeType, TerrainType, SAMPLING_ZOOM,
    UNDEFINED_HEIGHT, UNDEFINED_HUMIDITY,
};

#[test]
fn elevation_bands_start_below_the_whole_number() {
    assert_eq!(classify_elevation(0), 0);
    assert_eq!(classify_elevation(599), 0);
    assert_eq!(classify_elevation(600), 1);
    assert_eq!(classify_elevation(1599), 1);
    assert_eq!(classify_elevation(1600), 2);
    assert_eq!(classify_elevation(1700), 2);
    assert_eq!(classify_elevation(2600), 3);
    assert_eq!(classify_elevation(3600), 4);
    assert_eq!(classify_elevation(5000), 5);
}

#[test]
fn elevation_of_low_ground_is_zero() {
    assert_eq!(classify_elevation(-1), 0);
    assert_eq!(classify_elevation(-400), 0);
    assert_eq!(classify_elevation(-401), 0);
    assert_eq!(classify_elevation(-3000), 0);
    assert_eq!(classify_elevation(i32::MIN), 0);
}

#[test]
fn elevation_stops_at_the_highest_band() {
    assert_eq!(classify_elevation(254_600), 255);
    assert_eq!(classify_elevation(254_599), 254);
    assert_eq!(classify_elevation(1_000_000), 255);
    assert_eq!(classify_elevation(i32::MAX), 255);
}

#[test]
fn elevation_never_falls_as_the_height_rises() {
    let mut last = 0;
    let mut height = -5000;
    while height <= 300_000 {
        let band = classify_elevation(height);
        assert!(band >= last);
        last = band;
        height += 37;
    }
}

#[test]
fn biome_rules_in_order() {
    assert_eq!(BiomeType::new(-301, 0), BiomeType::WDeep);
    assert_eq!(BiomeType::new(-300, 0), BiomeType::WShallow);
    assert_eq!(BiomeType::new(-1, 0), BiomeType::WShallow);
    assert_eq!(BiomeType::new(0, 0), BiomeType::Desert);
    assert_eq!(BiomeType::new(49, 900), BiomeType::Desert);
    assert_eq!(BiomeType::new(2501, 0), BiomeType::Snow);
    assert_eq!(BiomeType::new(2500, 0), BiomeType::Stone);
    assert_eq!(BiomeType::new(1801, 900), BiomeType::Stone);
    assert_eq!(BiomeType::new(1800, -801), BiomeType::Stone);
    assert_eq!(BiomeType::new(1800, -800), BiomeType::Desert);
    assert_eq!(BiomeType::new(100, -600), BiomeType::Desert);
    assert_eq!(BiomeType::new(100, -500), BiomeType::Warm);
    assert_eq!(BiomeType::new(100, -1), BiomeType::Warm);
    assert_eq!(BiomeType::new(100, 0), BiomeType::Temperate);
    assert_eq!(BiomeType::new(100, 399), BiomeType::Temperate);
    assert_eq!(BiomeType::new(100, 400), BiomeType::Boreal);
    assert_eq!(BiomeType::new(100, 799), BiomeType::Boreal);
    assert_eq!(BiomeType::new(50, 800), BiomeType::Swamp);
    assert_eq!(BiomeType::new(1800, i32::MAX), BiomeType::Swamp);
}

#[test]
fn biome_height_rules_win_over_humidity() {
    for humidity in [i32::MIN, -801, -500, 0, 400, 800, i32::MAX] {
        assert_eq!(BiomeType::new(-1000, humidity), BiomeType::WDeep);
        assert_eq!(BiomeType::new(-100, humidity), BiomeType::WShallow);
        assert_eq!(BiomeType::new(20, humidity), BiomeType::Desert);
        assert_eq!(BiomeType::new(3000, humidity), BiomeType::Snow);
        assert_eq!(BiomeType::new(2000, humidity), BiomeType::Stone);
    }
}

#[test]
fn biome_is_the_same_for_the_same_sample() {
    for height in [-500, -100, 10, 300, 1900, 2600] {
        for humidity in [-900, -600, -100, 100, 500, 900] {
            assert_eq!(BiomeType::new(height, humidity), BiomeType::new(height, humidity));
        }
    }
}

#[test]
fn biome_gets_wetter_with_the_humidity() {
    let order = [
        BiomeType::Stone,
        BiomeType::Desert,
        BiomeType::Warm,
        BiomeType::Temperate,
        BiomeType::Boreal,
        BiomeType::Swamp,
    ];
    let mut last = 0;
    let mut humidity = -1200;
    while humidity <= 1200 {
        let biome = BiomeType::new(700, humidity);
        let place = order.iter().position(|b| *b == biome).unwrap();
        assert!(place >= last);
        last = place;
        humidity += 50;
    }
    assert_eq!(last, 5);
}

#[test]
fn terrain_types_are_told_apart() {
    assert_ne!(TerrainType::Flat, TerrainType::Hill);
    assert_ne!(TerrainType::Mont, TerrainType::OFlat);
}

#[test]
fn sampling_position_mirrors_the_offset() {
    assert_eq!(SAMPLING_ZOOM, 512);
    assert_eq!(sampling_position(&Coordinates { q: 0, r: 0 }), (0, 0));
    assert_eq!(sampling_position(&Coordinates { q: 1, r: 0 }), (-32, 0));
    assert_eq!(sampling_position(&Coordinates { q: 2, r: -5 }), (16, 105));
    assert_eq!(sampling_position(&Coordinates { q: -3, r: 4 }), (32, -84));
    assert_eq!(sampling_position(&Coordinates { q: i32::MIN, r: 0 }), (i32::MAX, 0));
    assert_eq!(sampling_position(&Coordinates { q: i32::MAX, r: 0 }), (-i32::MAX, 0));
}

#[test]
fn humidity_seed_is_the_next_seed() {
    assert_eq!(humidity_seed(0), 1);
    assert_eq!(humidity_seed(41), 42);
    assert_eq!(humidity_seed(u32::MAX - 1), u32::MAX);
}

#[test]
fn humidity_seed_after_the_last_is_the_first() {
    assert_eq!(humidity_seed(u32::MAX), 0);
}

#[test]
fn undefined_height_leaves_the_biome_to_the_humidity() {
    assert_eq!(UNDEFINED_HEIGHT, 50);
    assert_eq!(classify_elevation(UNDEFINED_HEIGHT), 0);
    assert_eq!(BiomeType::new(UNDEFINED_HEIGHT, -900), BiomeType::Stone);
    assert_eq!(BiomeType::new(UNDEFINED_HEIGHT, -600), BiomeType::Desert);
    assert_eq!(BiomeType::new(UNDEFINED_HEIGHT, -100), BiomeType::Warm);
    assert_eq!(BiomeType::new(UNDEFINED_HEIGHT, 100), BiomeType::Temperate);
    assert_eq!(BiomeType::new(UNDEFINED_HEIGHT, 500), BiomeType::Boreal);
    assert_eq!(BiomeType::new(UNDEFINED_HEIGHT, 900), BiomeType::Swamp);
}

#[test]
fn undefined_humidity_is_below_no_border() {
    assert_eq!(UNDEFINED_HUMIDITY, i32::MAX);
    assert_eq!(BiomeType::new(700, UNDEFINED_HUMIDITY), BiomeType::Swamp);
    assert_eq!(BiomeType::new(UNDEFINED_HEIGHT, UNDEFINED_HUMIDITY), BiomeType::Swamp);
    assert_eq!(BiomeType::new(-500, UNDEFINED_HUMIDITY), BiomeType::WDeep);
    assert_eq!(BiomeType::new(2000, UNDEFINED_HUMIDITY), BiomeType::Stone);
}

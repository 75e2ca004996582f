use auto_dungeon::coordinates::Coordinates;
use auto_dungeon::grid::{Grid, Hexagon};
use auto_dungeon::terrain::{
    classify_elevation, humidity_seed, sampling_position, BiomeType, TerrainSample, SAMPLE_UNIT,
    SAMPLING_ZOOM,
};
use noise::{Curve, Fbm, MultiFractal, NoiseFn, Perlin, ScaleBias, Terrace};
use std::cell::Cell;

struct Quotient<A, B> {
    above: A,
    below: B,
}

impl<A: NoiseFn<f64, 2>, B: NoiseFn<f64, 2>> NoiseFn<f64, 2> for Quotient<A, B> {
    fn get(&self, point: [f64; 2]) -> f64 {
        self.above.get(point) / self.below.get(point)
    }
}

fn height_field(seed: u32) -> Box<dyn NoiseFn<f64, 2>> {
    let terrace = Terrace::<f64, Perlin, 2>::new(Perlin::new(seed))
        .add_control_point(-1.)
        .add_control_point(-0.2)
        .add_control_point(0.)
        .add_control_point(0.4)
        .add_control_point(0.8)
        .add_control_point(1.2)
        .add_control_point(2.);
    let scaled = ScaleBias::new(terrace).set_scale(2.5).set_bias(0.5);
    Box::new(
        Curve::new(scaled)
            .add_control_point(-3., -3.)
            .add_control_point(-2.5, -2.)
            .add_control_point(-2., -0.5)
            .add_control_point(-1., -0.1)
            .add_control_point(0., 0.2)
            .add_control_point(1., 0.4)
            .add_control_point(2., 1.5)
            .add_control_point(2.5, 3.)
            .add_control_point(3., 5.),
    )
}

fn humidity_field(seed: u32, scale: f64, bias: f64) -> Box<dyn NoiseFn<f64, 2>> {
    let base = Fbm::<Perlin>::new(humidity_seed(seed))
        .set_frequency(0.10)
        .set_persistence(0.5)
        .set_lacunarity(2.208984375)
        .set_octaves(2);
    let biased_height: ScaleBias<f64, Box<dyn NoiseFn<f64, 2>>, 2> =
        ScaleBias::new(height_field(seed)).set_bias(1.).set_scale(3.);
    let ratio = Quotient { above: base, below: biased_height };
    let scaled: ScaleBias<f64, Quotient<_, _>, 2> =
        ScaleBias::new(ratio).set_scale(scale).set_bias(bias);
    Box::new(scaled)
}

fn fixed(value: f64) -> i32 {
    (value * SAMPLE_UNIT as f64).floor() as i32
}

fn sample(
    height: &dyn NoiseFn<f64, 2>,
    humidity: &dyn NoiseFn<f64, 2>,
    c: Coordinates,
) -> TerrainSample {
    let (x, y) = sampling_position(&c);
    let point = [x as f64 / SAMPLING_ZOOM as f64, y as f64 / SAMPLING_ZOOM as f64];
    TerrainSample { height: fixed(height.get(point)), humidity: fixed(humidity.get(point)) }
}

#[test]
fn noise_world_of_radius_two_and_its_recenter() {
    let height = height_field(0);
    let humidity = humidity_field(0, 0.97, 0.1);
    let calls = Cell::new(0);
    let field = |c: Coordinates| {
        calls.set(calls.get() + 1);
        sample(&height, &humidity, c)
    };
    let center = Coordinates { q: 0, r: 0 };
    let first = Coordinates::build_hexagonal_area(center, 2);
    let mut grid = Grid::new(&field, &first).unwrap();
    assert_eq!(grid.len(), 19);
    assert_eq!(calls.get(), 19);
    for c in first.iter() {
        assert!(center.distance_to(c) <= 2);
        let expected = sample(&height, &humidity, *c);
        let hexagon = grid.get(c).unwrap();
        assert_eq!(hexagon.height, classify_elevation(expected.height));
        assert_eq!(hexagon.texture_type.1, BiomeType::new(expected.height, expected.humidity));
    }
    let before: Vec<(Coordinates, Hexagon)> =
        first.iter().map(|c| (*c, *grid.get(c).unwrap())).collect();

    let moved = Coordinates { q: 2, r: 0 };
    let second = Coordinates::build_hexagonal_area(moved, 2);
    grid.at(&field, &second);
    assert_eq!(grid.len(), 19);
    assert_eq!(calls.get(), 19 + 10);
    for c in second.iter() {
        assert!(moved.distance_to(c) <= 2);
        assert!(grid.get(c).is_some());
    }
    for (c, hexagon) in before.iter() {
        if second.contains(c) {
            assert_eq!(grid.get(c), Some(hexagon));
        } else {
            assert_eq!(grid.get(c), None);
        }
    }
}

#[test]
fn noise_world_changes_only_its_humidity_with_the_humidity_settings() {
    let height = height_field(0);
    let usual = humidity_field(0, 0.97, 0.1);
    let wetter = humidity_field(0, 0.97, 0.6);
    let area = Coordinates::build_hexagonal_area(Coordinates { q: 0, r: 0 }, 6);
    for c in area.iter() {
        let a = sample(&height, &usual, *c);
        let b = sample(&height, &wetter, *c);
        assert_eq!(a.height, b.height);
        assert!(b.humidity >= a.humidity);
        assert_eq!(classify_elevation(a.height), classify_elevation(b.height));
    }
}

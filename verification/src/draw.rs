//! What to draw for a view of the grid, and in which order: the tiles are
//! stacked layer by layer, and a raised tile throws a shadow on the layer
//! below it.

use crate::coordinates::{hex_distance, saturate, saturate_to_i32, Coordinates};
use crate::grid::{Grid, Hexagon};
use crate::terrain::{BiomeType, TerrainType};
use vstd::prelude::*;

verus! {

/// The highest layer that is drawn. A tile of a higher band shows on every
/// layer and throws no shadow.
pub const TOP_LAYER: u8 = 4;

/// One thing to draw.
#[derive(Clone, Copy, Debug, PartialEq, Eq)]
pub enum DrawStep {
    /// The shadow of the tile at `coordinates`, at the height of the layer
    /// `elevation`.
    Shadow { coordinates: Coordinates, elevation: u8 },
    /// The tile at `coordinates` with a texture for `texture_type`, at the
    /// height of the layer `elevation`.
    Tile { coordinates: Coordinates, texture_type: (TerrainType, BiomeType), elevation: u8 },
}

impl DrawStep {
    /// The position that the step draws at.
    pub open spec fn position(self) -> Coordinates {
        match self {
            DrawStep::Shadow { coordinates, .. } => coordinates,
            DrawStep::Tile { coordinates, .. } => coordinates,
        }
    }

    /// The layer that the step belongs to.
    pub open spec fn layer(self) -> int {
        match self {
            DrawStep::Shadow { elevation, .. } => elevation as int,
            DrawStep::Tile { elevation, .. } => elevation as int,
        }
    }
}

/// Whether a view of radius `radius` round `center` draws `step`. On each
/// layer up to the top one, every tile within the view whose band reaches
/// the layer is drawn. On each layer but the lowest, every tile of the grid
/// whose band is that layer throws a shadow, within the view or not.
pub open spec fn is_drawn(
    tiles: Map<Coordinates, Hexagon>,
    center: Coordinates,
    radius: int,
    step: DrawStep,
) -> bool {
    let c = step.position();
    &&& tiles.contains_key(c)
    &&& step.layer() <= TOP_LAYER
    &&& match step {
        DrawStep::Shadow { elevation, .. } => 1 <= elevation && tiles[c].height == elevation,
        DrawStep::Tile { texture_type, elevation, .. } => hex_distance(center, c) <= radius
            && tiles[c].height >= elevation && texture_type == tiles[c].texture_type,
    }
}

/// The order in which the tiles of a layer are gone through: row by row
/// from the lowest `r`, and along a row from the highest `q` down.
pub open spec fn scanned_before(a: Coordinates, b: Coordinates) -> bool {
    a.r < b.r || (a.r == b.r && a.q > b.q)
}

/// Whether `a` may stand before `b` in the list of steps: the lower layer
/// comes first; on a layer the shadows come before the tiles, and the tiles
/// in the order of the scan. The shadows of one layer come in any order.
pub open spec fn may_precede(a: DrawStep, b: DrawStep) -> bool {
    ||| a.layer() < b.layer()
    ||| a.layer() == b.layer() && a is Shadow
    ||| a.layer() == b.layer() && b is Tile && scanned_before(a.position(), b.position())
}

/// Whether `step` belongs to a pass that comes before the pass over
/// `elevation` for shadows (or for tiles).
spec fn in_earlier_pass(step: DrawStep, elevation: int, shadows: bool) -> bool {
    step.layer() < elevation || (step.layer() == elevation && step is Shadow && !shadows)
}

/// Whether `step` belongs to the pass over `elevation` for shadows (or for
/// tiles).
spec fn in_pass(step: DrawStep, elevation: int, shadows: bool) -> bool {
    step.layer() == elevation && (step is Shadow <==> shadows)
}

spec fn in_order(steps: Seq<DrawStep>) -> bool {
    forall|i: int, j: int|
        0 <= i < j < steps.len() ==> may_precede(#[trigger] steps[i], #[trigger] steps[j])
}

/// Adds the shadows of the layer `elevation` to `steps`: one for each of
/// `positions` whose tile has that band.
fn draw_shadows(
    grid: &Grid,
    positions: &Vec<Coordinates>,
    center: Coordinates,
    radius: i32,
    elevation: u8,
    steps: &mut Vec<DrawStep>,
)
    requires
        1 <= elevation <= TOP_LAYER,
        positions@.no_duplicates(),
        positions@.to_set() == grid@.dom(),
        in_order(old(steps)@),
        old(steps)@.no_duplicates(),
        forall|s: DrawStep| #[trigger]
            old(steps)@.contains(s) <==> is_drawn(grid@, center, radius as int, s)
                && in_earlier_pass(s, elevation as int, true),
    ensures
        in_order(final(steps)@),
        final(steps)@.no_duplicates(),
        forall|s: DrawStep| #[trigger]
            final(steps)@.contains(s) <==> is_drawn(grid@, center, radius as int, s)
                && in_earlier_pass(s, elevation as int, false),
{
    let mut i: usize = 0;
    while i < positions.len()
        invariant
            1 <= elevation <= TOP_LAYER,
            0 <= i <= positions.len(),
            positions@.no_duplicates(),
            positions@.to_set() == grid@.dom(),
            in_order(steps@),
            steps@.no_duplicates(),
            forall|s: DrawStep| #[trigger]
                steps@.contains(s) <==> is_drawn(grid@, center, radius as int, s) && (
                in_earlier_pass(s, elevation as int, true) || (in_pass(s, elevation as int, true)
                    && exists|j: int| 0 <= j < i && positions@[j] == s.position())),
        decreases positions.len() - i,
    {
        let coordinates = positions[i];
        let ghost before = steps@;
        proof {
            assert(positions@.to_set().contains(coordinates));
        }
        match grid.get(&coordinates) {
            Some(hexagon) => {
                if hexagon.height == elevation {
                    let step = DrawStep::Shadow { coordinates, elevation };
                    steps.push(step);
                    proof {
                        assert forall|s: DrawStep| #[trigger]
                            steps@.contains(s) <==> is_drawn(grid@, center, radius as int, s) && (
                            in_earlier_pass(s, elevation as int, true) || (in_pass(
                                s,
                                elevation as int,
                                true,
                            ) && exists|j: int| 0 <= j < i + 1 && positions@[j] == s.position()))
                            by {
                            if before.contains(s) {
                                let k = choose|k: int| 0 <= k < before.len() && before[k] == s;
                                assert(steps@[k] == s);
                            }
                            if s == step {
                                assert(steps@[before.len() as int] == s);
                                assert(positions@[i as int] == s.position());
                            }
                        }
                        assert forall|a: int, b: int| 0 <= a < b < steps@.len() implies may_precede(
                            #[trigger] steps@[a],
                            #[trigger] steps@[b],
                        ) by {
                            if b == before.len() {
                                assert(before.contains(before[a]));
                            }
                        }
                        assert forall|a: int, b: int|
                            0 <= a < steps@.len() && 0 <= b < steps@.len() && a != b implies steps@[a]
                            != steps@[b] by {
                            if b == before.len() {
                                assert(before.contains(before[a]));
                            }
                            if a == before.len() {
                                assert(before.contains(before[b]));
                            }
                        }
                    }
                }
            },
            None => {},
        }
        proof {
            assert forall|s: DrawStep| #[trigger]
                steps@.contains(s) <==> is_drawn(grid@, center, radius as int, s) && (
                in_earlier_pass(s, elevation as int, true) || (in_pass(s, elevation as int, true)
                    && exists|j: int| 0 <= j < i + 1 && positions@[j] == s.position())) by {
                if is_drawn(grid@, center, radius as int, s) && in_pass(s, elevation as int, true)
                    && positions@[i as int] == s.position() {
                    assert(s == (DrawStep::Shadow { coordinates, elevation }));
                }
            }
        }
        i = i + 1;
    }
    proof {
        assert forall|s: DrawStep| #[trigger]
            steps@.contains(s) <==> is_drawn(grid@, center, radius as int, s) && in_earlier_pass(
                s,
                elevation as int,
                false,
            ) by {
            if is_drawn(grid@, center, radius as int, s) && in_pass(s, elevation as int, true) {
                assert(positions@.to_set().contains(s.position()));
                assert(positions@.contains(s.position()));
            }
        }
    }
}

/// Adds the tiles of the layer `elevation` to `steps`: one for each tile
/// within the view whose band reaches the layer, in the order of the scan.
fn draw_tiles(
    grid: &Grid,
    center: Coordinates,
    radius: i32,
    elevation: u8,
    steps: &mut Vec<DrawStep>,
)
    requires
        elevation <= TOP_LAYER,
        in_order(old(steps)@),
        old(steps)@.no_duplicates(),
        forall|s: DrawStep| #[trigger]
            old(steps)@.contains(s) <==> is_drawn(grid@, center, radius as int, s)
                && in_earlier_pass(s, elevation as int, false),
    ensures
        in_order(final(steps)@),
        final(steps)@.no_duplicates(),
        forall|s: DrawStep| #[trigger]
            final(steps)@.contains(s) <==> is_drawn(grid@, center, radius as int, s) && s.layer()
                <= elevation,
{
    let first_q: i64 = saturate_to_i32(center.q as i128 - radius as i128) as i64;
    let last_q: i64 = saturate_to_i32(center.q as i128 + radius as i128) as i64;
    let first_r: i64 = saturate_to_i32(center.r as i128 - radius as i128) as i64;
    let last_r: i64 = saturate_to_i32(center.r as i128 + radius as i128) as i64;
    let mut r: i64 = first_r;
    while r <= last_r
        invariant
            elevation <= TOP_LAYER,
            first_q == saturate(center.q - radius),
            last_q == saturate(center.q + radius),
            first_r == saturate(center.r - radius),
            last_r == saturate(center.r + radius),
            first_r <= r,
            in_order(steps@),
            steps@.no_duplicates(),
            forall|s: DrawStep| #[trigger]
                steps@.contains(s) <==> is_drawn(grid@, center, radius as int, s) && (
                in_earlier_pass(s, elevation as int, false) || (in_pass(
                    s,
                    elevation as int,
                    false,
                ) && s.position().r < r)),
        decreases last_r + 1 - r,
    {
        let mut q: i64 = last_q;
        while q >= first_q
            invariant
                elevation <= TOP_LAYER,
                first_q == saturate(center.q - radius),
                last_q == saturate(center.q + radius),
                first_r == saturate(center.r - radius),
                last_r == saturate(center.r + radius),
                first_r <= r <= last_r,
                q <= last_q,
                in_order(steps@),
                steps@.no_duplicates(),
                forall|s: DrawStep| #[trigger]
                    steps@.contains(s) <==> is_drawn(grid@, center, radius as int, s) && (
                    in_earlier_pass(s, elevation as int, false) || (in_pass(
                        s,
                        elevation as int,
                        false,
                    ) && (s.position().r < r || (s.position().r == r && s.position().q > q)))),
            decreases q + 1 - first_q,
        {
            let coordinates = Coordinates { q: q as i32, r: r as i32 };
            let ghost before = steps@;
            let mut added: Option<DrawStep> = None;
            if center.distance_to(&coordinates) <= radius as i64 {
                match grid.get(&coordinates) {
                    Some(hexagon) => {
                        if hexagon.height >= elevation {
                            added =
                            Some(
                                DrawStep::Tile {
                                    coordinates,
                                    texture_type: hexagon.texture_type,
                                    elevation,
                                },
                            );
                        }
                    },
                    None => {},
                }
            }
            match added {
                Some(step) => {
                    steps.push(step);
                    proof {
                        assert forall|s: DrawStep| #[trigger]
                            steps@.contains(s) <==> is_drawn(grid@, center, radius as int, s) && (
                            in_earlier_pass(s, elevation as int, false) || (in_pass(
                                s,
                                elevation as int,
                                false,
                            ) && (s.position().r < r || (s.position().r == r && s.position().q > q
                                - 1)))) by {
                            if before.contains(s) {
                                let i = choose|i: int| 0 <= i < before.len() && before[i] == s;
                                assert(steps@[i] == s);
                            }
                            if s == step {
                                assert(steps@[before.len() as int] == s);
                            }
                        }
                        assert forall|i: int, j: int| 0 <= i < j < steps@.len() implies may_precede(
                            #[trigger] steps@[i],
                            #[trigger] steps@[j],
                        ) by {
                            if j == before.len() {
                                assert(before.contains(before[i]));
                            }
                        }
                        assert forall|i: int, j: int|
                            0 <= i < steps@.len() && 0 <= j < steps@.len() && i != j implies steps@[i]
                            != steps@[j] by {
                            if j == before.len() {
                                assert(before.contains(before[i]));
                            }
                            if i == before.len() {
                                assert(before.contains(before[j]));
                            }
                        }
                    }
                },
                None => {},
            }
            q = q - 1;
        }
        proof {
            assert forall|s: DrawStep| #[trigger]
                steps@.contains(s) <==> is_drawn(grid@, center, radius as int, s) && (
                in_earlier_pass(s, elevation as int, false) || (in_pass(
                    s,
                    elevation as int,
                    false,
                ) && s.position().r < r + 1)) by {
                crate::area::lemma_distance_bound(center, s.position(), radius as int);
            }
        }
        r = r + 1;
    }
    proof {
        assert forall|s: DrawStep| #[trigger]
            steps@.contains(s) <==> is_drawn(grid@, center, radius as int, s) && s.layer()
                <= elevation by {
            crate::area::lemma_distance_bound(center, s.position(), radius as int);
        }
    }
}

impl Grid {
    /// Lists what a view of radius `radius` round `center` draws, in the
    /// order in which to draw it: layer by layer from the lowest, on each
    /// layer first the shadows and then the tiles. Each step is listed once.
    pub fn draw(&self, center: Coordinates, radius: i32) -> (steps: Vec<DrawStep>)
        ensures
            forall|s: DrawStep| #[trigger]
                steps@.contains(s) <==> is_drawn(self@, center, radius as int, s),
            steps@.no_duplicates(),
            forall|i: int, j: int|
                0 <= i < j < steps.len() ==> may_precede(#[trigger] steps[i], #[trigger] steps[j]),
    {
        let positions = self.positions();
        let mut steps: Vec<DrawStep> = Vec::new();
        let mut elevation: u8 = 0;
        while elevation <= TOP_LAYER
            invariant
                elevation <= TOP_LAYER + 1,
                positions@.no_duplicates(),
                positions@.to_set() == self@.dom(),
                in_order(steps@),
                steps@.no_duplicates(),
                forall|s: DrawStep| #[trigger]
                    steps@.contains(s) <==> is_drawn(self@, center, radius as int, s) && s.layer()
                        < elevation,
            decreases TOP_LAYER + 1 - elevation,
        {
            if elevation > 0 {
                draw_shadows(self, &positions, center, radius, elevation, &mut steps);
            }
            draw_tiles(self, center, radius, elevation, &mut steps);
            elevation = elevation + 1;
        }
        steps
    }
}

} // verus!

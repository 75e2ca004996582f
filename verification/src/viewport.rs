//! The state of the view and what each command does to it.

use crate::coordinates::{saturate, saturate_to_i32, Coordinates};
use crate::area::{hex_disk, scan_before};
use vstd::prelude::*;

verus! {

/// The radius of the area in view.
pub const GRID_RADIUS: i32 = 25;

/// The humidity scale that a view starts with, in thousandths.
pub const HUMIDITY_SCALE: i32 = 970;

/// The humidity bias that a view starts with, in thousandths.
pub const HUMIDITY_BIAS: i32 = 100;

/// By how much a command changes the humidity scale, in thousandths.
pub const HUMIDITY_SCALE_STEP: i32 = 10;

/// By how much a command changes the humidity bias, in thousandths.
pub const HUMIDITY_BIAS_STEP: i32 = 100;

/// What the user can ask of the view.
#[derive(Clone, Copy, Debug, PartialEq, Eq, Structural)]
pub enum Command {
    Left,
    Right,
    Up,
    Down,
    RaiseHumidityBias,
    LowerHumidityBias,
    RaiseHumidityScale,
    LowerHumidityScale,
    Quit,
}

/// What is left to do once a command has changed the view.
#[derive(Clone, Copy, Debug, PartialEq, Eq, Structural)]
pub enum Effect {
    /// The centre has moved: move the grid to the new area and draw it.
    Recenter,
    /// The terrain has changed: make the field anew, build the grid anew
    /// and draw it.
    Regenerate,
    /// Stop.
    Quit,
}

/// Where the view looks, and the two settings of the terrain's humidity.
#[derive(Clone, Copy, Debug, PartialEq, Eq, Structural)]
pub struct Viewport {
    pub center: Coordinates,
    pub humidity_scale: i32,
    pub humidity_bias: i32,
}

impl Command {
    /// What is left to do after the command.
    pub open spec fn effect(self) -> Effect {
        match self {
            Command::Left | Command::Right | Command::Up | Command::Down => Effect::Recenter,
            Command::Quit => Effect::Quit,
            _ => Effect::Regenerate,
        }
    }
}

impl Viewport {
    /// The view that a session starts with.
    pub open spec fn initial() -> Viewport {
        Viewport {
            center: Coordinates { q: 0, r: 0 },
            humidity_scale: HUMIDITY_SCALE,
            humidity_bias: HUMIDITY_BIAS,
        }
    }

    /// The view after a command. The arrows move the centre by two columns,
    /// or by two rows and a column back so that the view goes straight up or
    /// down; the humidity settings go up and down by their step and stop at
    /// the ends of `i32`.
    pub open spec fn after(self, command: Command) -> Viewport {
        match command {
            Command::Left => Viewport { center: self.center.spec_shift(-2i32, 0), ..self },
            Command::Right => Viewport { center: self.center.spec_shift(2, 0), ..self },
            Command::Up => Viewport { center: self.center.spec_shift(1, -2i32), ..self },
            Command::Down => Viewport { center: self.center.spec_shift(-1i32, 2), ..self },
            Command::RaiseHumidityBias => Viewport {
                humidity_bias: saturate(self.humidity_bias + HUMIDITY_BIAS_STEP),
                ..self
            },
            Command::LowerHumidityBias => Viewport {
                humidity_bias: saturate(self.humidity_bias - HUMIDITY_BIAS_STEP),
                ..self
            },
            Command::RaiseHumidityScale => Viewport {
                humidity_scale: saturate(self.humidity_scale + HUMIDITY_SCALE_STEP),
                ..self
            },
            Command::LowerHumidityScale => Viewport {
                humidity_scale: saturate(self.humidity_scale - HUMIDITY_SCALE_STEP),
                ..self
            },
            Command::Quit => self,
        }
    }

    /// The view that a session starts with.
    pub fn new() -> (viewport: Viewport)
        ensures
            viewport == Viewport::initial(),
    {
        Viewport {
            center: Coordinates { q: 0, r: 0 },
            humidity_scale: HUMIDITY_SCALE,
            humidity_bias: HUMIDITY_BIAS,
        }
    }

    /// Carries out a command and says what is left to do.
    pub fn apply(&mut self, command: Command) -> (effect: Effect)
        ensures
            *final(self) == old(self).after(command),
            effect == command.effect(),
    {
        match command {
            Command::Left => {
                self.center = self.center.shift(-2, 0);
                Effect::Recenter
            },
            Command::Right => {
                self.center = self.center.shift(2, 0);
                Effect::Recenter
            },
            Command::Up => {
                self.center = self.center.shift(1, -2);
                Effect::Recenter
            },
            Command::Down => {
                self.center = self.center.shift(-1, 2);
                Effect::Recenter
            },
            Command::RaiseHumidityBias => {
                self.humidity_bias =
                saturate_to_i32(self.humidity_bias as i128 + HUMIDITY_BIAS_STEP as i128);
                Effect::Regenerate
            },
            Command::LowerHumidityBias => {
                self.humidity_bias =
                saturate_to_i32(self.humidity_bias as i128 - HUMIDITY_BIAS_STEP as i128);
                Effect::Regenerate
            },
            Command::RaiseHumidityScale => {
                self.humidity_scale =
                saturate_to_i32(self.humidity_scale as i128 + HUMIDITY_SCALE_STEP as i128);
                Effect::Regenerate
            },
            Command::LowerHumidityScale => {
                self.humidity_scale =
                saturate_to_i32(self.humidity_scale as i128 - HUMIDITY_SCALE_STEP as i128);
                Effect::Regenerate
            },
            Command::Quit => Effect::Quit,
        }
    }

    /// The area in view: the hex disk of radius `GRID_RADIUS` round the
    /// centre.
    pub fn area(&self) -> (area: Vec<Coordinates>)
        ensures
            area@.to_set() == hex_disk(self.center, GRID_RADIUS as int),
            area@.no_duplicates(),
            forall|i: int, j: int|
                0 <= i < j < area.len() ==> scan_before(#[trigger] area[i], #[trigger] area[j]),
    {
        Coordinates::build_hexagonal_area(self.center, GRID_RADIUS)
    }
}

} // verus!

//! A procedural hexagonal world: an axial coordinate lattice, the
//! classification of terrain samples into elevation bands and biomes, and a
//! viewport grid that keeps the cells it already holds when the view moves.

pub mod area;
pub mod coordinates;
pub mod draw;
pub mod grid;
pub mod pixels;
pub mod terrain;
pub mod textures;
pub mod viewport;

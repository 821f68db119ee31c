//! A tile-based kinematic physics and collision-resolution core.
//!
//! The crate simulates rigid actor movement against a static collision world
//! of solid tiles and one-way ("jump-through") platforms. Each simulation
//! tick it performs position de-penetration, axis-ordered movement with
//! bounce reflection, discrete probe-based ground classification, and
//! friction/gravity integration.
//!
//! All quantities are fixed-point integers with three decimal places: a
//! position, velocity or shape dimension of `1000` stands for one world
//! unit, and a coefficient of `1000` stands for the fraction one.

pub mod body;
pub mod collider;
pub mod damage;
pub mod geom;
pub mod physics;
pub mod shape;
pub mod tile;
pub mod ui;
pub mod world;

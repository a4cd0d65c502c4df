//! A boat on an endless sea under a dome of stars: the surface of the sea,
//! the motion of the boat, and navigation by dead reckoning against the
//! sky.
//!
//! Every length, time, angle and pure number is an `i64` that counts
//! billionths, held in range by saturation; see [`fixed`]. Nothing here
//! reads a clock, a key or a file: each function takes what it needs and
//! returns what it makes, so that the same inputs always give the same
//! outputs.
//!
//! - [`fixed`], [`unit`], [`trig`]: arithmetic, scaling to unit length, sine
//!   and cosine.
//! - [`vector`], [`quat`]: vectors and rotations.
//! - [`water`]: the waves and the surface they make.
//! - [`boat`], [`input`], [`camera`]: the boat, its helm, and the view.
//! - [`sky`], [`navigation`], [`voyage`]: the dome, day and night, and the
//!   two in step.
//! - [`stars`]: the meshes of the stars.
//! - [`simulation`]: one tick of the whole.
pub mod fixed;
pub mod unit;
pub mod trig;
pub mod vector;
pub mod quat;
pub mod water;
pub mod navigation;
pub mod boat;
pub mod sky;
pub mod voyage;
pub mod camera;
pub mod input;
pub mod stars;
pub mod simulation;

//! Braitenberg-vehicle simulation core: inverse-square stimulus sensing, a
//! differential-drive steering law with a symmetry-reduced turn rate, and a
//! capture-and-relocate stimulus replenishment policy, all over fixed-point
//! (micro-unit) integer arithmetic.

pub mod fixed;
pub mod trig;
pub mod geom;
pub mod light;
pub mod sensor;
pub mod vehicle;
pub mod replenish;
pub mod scene;
pub mod laws;

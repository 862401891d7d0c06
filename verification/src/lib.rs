//! The discrete core of a planar gravity simulation.
//!
//! Bodies carry double-precision quantities by their binary64 encoding, so
//! that every rule of the simulation that is not itself arithmetic on real
//! numbers is stated and proved here: which bodies move, which bodies pull on
//! which, how identifiers are handed out, when an orbit trail stops growing,
//! and which of its samples are drawn.
pub mod body;
pub mod laws;
pub mod scalar;
pub mod select;
pub mod simulation;
pub mod trail;
pub mod vector;

pub use crate::body::{Body, BodyType};
pub use crate::scalar::Scalar;
pub use crate::simulation::Simulation;
pub use crate::trail::{Frame, OrbitTrail};
pub use crate::vector::{Motion, Point, Vector};

//! Positions, velocities and screen points, as tuples of scalars.
//!
//! Motion is confined to the x-y plane: a vector carries a z component, and
//! nothing here reads it but the test for finiteness.
use vstd::prelude::*;
use crate::scalar::Scalar;

verus! {

/// A position in metres or a velocity in metres per second.
#[derive(Clone, Copy, Debug, PartialEq, Eq, Structural)]
pub struct Vector {
    pub x: Scalar,
    pub y: Scalar,
    pub z: Scalar,
}

impl Vector {
    /// No component is infinite or a NaN.
    pub open spec fn finite(self) -> bool {
        self.x.finite() && self.y.finite() && self.z.finite()
    }

    /// The two vectors name the same place of the plane: their x components
    /// are equal as numbers, and so are their y components.
    pub open spec fn coincides(self, other: Vector) -> bool {
        self.x.same_number(other.x) && self.y.same_number(other.y)
    }

    /// The vector with the given components.
    pub fn new(x: Scalar, y: Scalar, z: Scalar) -> (v: Vector)
        ensures
            v == (Vector { x, y, z }),
    {
        Vector { x, y, z }
    }

    /// The vector whose components are all positive zero.
    pub fn origin() -> (v: Vector)
        ensures
            v.x.bits == 0,
            v.y.bits == 0,
            v.z.bits == 0,
            v.finite(),
    {
        Vector { x: Scalar::zero(), y: Scalar::zero(), z: Scalar::zero() }
    }

    /// Whether no component is infinite or a NaN.
    pub fn is_finite(&self) -> (r: bool)
        ensures
            r == self.finite(),
    {
        self.x.is_finite() && self.y.is_finite() && self.z.is_finite()
    }

    /// Whether the two vectors name the same place of the plane.
    pub fn is_coincident(&self, other: &Vector) -> (r: bool)
        ensures
            r == self.coincides(*other),
    {
        self.x.is_same_number(&other.x) && self.y.is_same_number(&other.y)
    }
}

/// A point of the screen, in pixels.
#[derive(Clone, Copy, Debug, PartialEq, Eq, Structural)]
pub struct Point {
    pub x: Scalar,
    pub y: Scalar,
}

impl Point {
    /// The point with the given coordinates.
    pub fn new(x: Scalar, y: Scalar) -> (p: Point)
        ensures
            p == (Point { x, y }),
    {
        Point { x, y }
    }
}

/// Where a body is and how fast it moves.
#[derive(Clone, Copy, Debug, PartialEq, Eq, Structural)]
pub struct Motion {
    pub position: Vector,
    pub velocity: Vector,
}

impl Motion {
    /// Position and velocity are both finite.
    pub open spec fn finite(self) -> bool {
        self.position.finite() && self.velocity.finite()
    }

    /// The motion with the given position and velocity.
    pub fn new(position: Vector, velocity: Vector) -> (m: Motion)
        ensures
            m == (Motion { position, velocity }),
    {
        Motion { position, velocity }
    }

    /// Whether position and velocity are both finite.
    pub fn is_finite(&self) -> (r: bool)
        ensures
            r == self.finite(),
    {
        self.position.is_finite() && self.velocity.is_finite()
    }
}

} // verus!

//! Triples of scalars: points, directions and colours.

use crate::scalar::Scalar;
use vstd::prelude::*;

verus! {

/// Three scalars. The library carries them; what is computed from them is
/// computed elsewhere.
#[derive(Clone, Copy, Debug, PartialEq, Eq, Structural)]
pub struct Vec3 {
    pub x: Scalar,
    pub y: Scalar,
    pub z: Scalar,
}

impl Vec3 {
    /// Whether each component lies between zero and one, both included.
    pub open spec fn probabilities(self) -> bool {
        self.x.probability() && self.y.probability() && self.z.probability()
    }

    /// Whether the vector can be the direction of a ray: each component is a
    /// number, and not all of them are zero.
    pub open spec fn direction(self) -> bool {
        &&& !self.x.is_not_a_number()
        &&& !self.y.is_not_a_number()
        &&& !self.z.is_not_a_number()
        &&& (self.x.rank() != 0 || self.y.rank() != 0 || self.z.rank() != 0)
    }

    pub fn new(x: Scalar, y: Scalar, z: Scalar) -> (v: Vec3)
        ensures
            v == (Vec3 { x, y, z }),
    {
        Vec3 { x, y, z }
    }

    /// Create a vector where all components have value f
    pub fn new_uniform(f: Scalar) -> (v: Vec3)
        ensures
            v == (Vec3 { x: f, y: f, z: f }),
    {
        Vec3 { x: f, y: f, z: f }
    }

    /// Create the zero vector <0, 0, 0>
    pub fn zero() -> (v: Vec3)
        ensures
            v == (Vec3 { x: Scalar { bits: 0 }, y: Scalar { bits: 0 }, z: Scalar { bits: 0 } }),
            !v.direction(),
    {
        Vec3::new_uniform(Scalar::zero())
    }

    /// Whether each component lies between zero and one, both included.
    pub fn are_probabilities(&self) -> (yes: bool)
        ensures
            yes == self.probabilities(),
    {
        self.x.is_probability() && self.y.is_probability() && self.z.is_probability()
    }

    /// Whether the vector can be the direction of a ray. A direction of
    /// length zero points nowhere, and is refused.
    pub fn is_direction(&self) -> (yes: bool)
        ensures
            yes == self.direction(),
    {
        if self.x.is_nan() || self.y.is_nan() || self.z.is_nan() {
            return false;
        }
        let zero = Scalar::zero();
        zero.lt(&self.x) || self.x.lt(&zero) || zero.lt(&self.y) || self.y.lt(&zero) || zero.lt(
            &self.z,
        ) || self.z.lt(&zero)
    }
}

} // verus!

//! Rays: where one starts and which way it goes.

use crate::vector::Vec3;
use vstd::prelude::*;

verus! {

/// Rays are just finite lines, i.e. lines with a start and a direction.
#[derive(Clone, Copy, Debug, PartialEq, Eq, Structural)]
pub struct Ray {
    pub origin: Vec3,
    pub direction: Vec3,
}

impl Ray {
    /// The ray from `origin` along `direction`, or nothing where the
    /// direction has length zero or a component that is no number: such a
    /// ray points nowhere.
    pub fn new(origin: Vec3, direction: Vec3) -> (ray: Option<Ray>)
        ensures
            ray == if direction.direction() {
                Some(Ray { origin, direction })
            } else {
                None
            },
    {
        if direction.is_direction() {
            Some(Ray { origin, direction })
        } else {
            None
        }
    }
}

} // verus!

//! Colours: three channels, each between zero and one.

use crate::scalar::Scalar;
use crate::vector::Vec3;
use vstd::prelude::*;

verus! {

/// Color is a simple newtype around Vec3 to store RGB colors. Each channel
/// of a colour lies between zero and one, both included: no colour exists
/// that breaks this.
#[derive(Clone, Copy)]
pub struct Color(Vec3);

impl Color {
    /// The three channels.
    pub closed spec fn spec_vec(&self) -> Vec3 {
        self.0
    }

    /// Whether each channel lies between zero and one. Of every colour that a
    /// program holds, each does.
    #[verifier::type_invariant]
    pub open spec fn valid(self) -> bool {
        self.spec_vec().probabilities()
    }

    /// Whether the colour is black: every channel is positive zero.
    pub open spec fn is_black(&self) -> bool {
        self.spec_vec() == (Vec3 {
            x: Scalar { bits: 0 },
            y: Scalar { bits: 0 },
            z: Scalar { bits: 0 },
        })
    }

    /// r, g and b must be between 0 and 1 inclusive.
    pub fn new(r: Scalar, g: Scalar, b: Scalar) -> (color: Color)
        requires
            r.probability(),
            g.probability(),
            b.probability(),
        ensures
            color.spec_vec() == (Vec3 { x: r, y: g, z: b }),
    {
        Color(Vec3 { x: r, y: g, z: b })
    }

    /// The grey with each channel at `f`, which must be between 0 and 1
    /// inclusive.
    pub fn new_uniform(f: Scalar) -> (color: Color)
        requires
            f.probability(),
        ensures
            color.spec_vec() == (Vec3 { x: f, y: f, z: f }),
    {
        Color::new(f, f, f)
    }

    /// Black: no light at all.
    pub fn black() -> (color: Color)
        ensures
            color.is_black(),
    {
        Color::new_uniform(Scalar::zero())
    }

    /// The colour with the channels of `v`, or nothing where one of them lies
    /// outside zero to one.
    pub fn checked(v: Vec3) -> (color: Option<Color>)
        ensures
            match color {
                Some(c) => v.probabilities() && c.spec_vec() == v,
                None => !v.probabilities(),
            },
    {
        if v.are_probabilities() {
            Some(Color::new(v.x, v.y, v.z))
        } else {
            None
        }
    }

    /// Red
    pub fn r(&self) -> (r: Scalar)
        ensures
            r == self.spec_vec().x,
            r.probability(),
    {
        proof {
            use_type_invariant(self);
        }
        self.0.x
    }

    /// Green
    pub fn g(&self) -> (g: Scalar)
        ensures
            g == self.spec_vec().y,
            g.probability(),
    {
        proof {
            use_type_invariant(self);
        }
        self.0.y
    }

    /// Blue
    pub fn b(&self) -> (b: Scalar)
        ensures
            b == self.spec_vec().z,
            b.probability(),
    {
        proof {
            use_type_invariant(self);
        }
        self.0.z
    }

    #[verifier::when_used_as_spec(spec_vec)]
    pub fn vec(&self) -> (v: Vec3)
        ensures
            v == self.spec_vec(),
            v.probabilities(),
    {
        proof {
            use_type_invariant(self);
        }
        self.0
    }
}

} // verus!

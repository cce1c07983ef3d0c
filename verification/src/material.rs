//! What a surface does with the light that reaches it.

use crate::hittable::Hit;
use crate::ray::Ray;
use crate::scalar::Scalar;
use crate::scalar::ONE_BITS;
use crate::vector::Vec3;
use vstd::prelude::*;

verus! {

/// How a surface scatters light. The albedo is the share of each colour
/// channel that the surface gives back.
#[derive(Clone, Copy, Debug, PartialEq, Eq, Structural)]
pub enum Material {
    /// A matt surface: light leaves in every direction.
    Diffuse { albedo: Vec3 },
    /// A mirror, the rougher the larger `fuzz` is.
    Metal { albedo: Vec3, fuzz: Scalar },
}

/// Light that a surface scattered: by what it was dimmed, and the ray along
/// which it leaves.
#[derive(Clone, Copy, Debug, PartialEq, Eq, Structural)]
pub struct Scatter {
    pub attenuation: Vec3,
    pub scattered: Ray,
}

/// The way in which light would leave a surface, as the arithmetic found it:
/// the direction, and how far that direction points away from the surface,
/// which is its dot product with the surface normal.
#[derive(Clone, Copy, Debug, PartialEq, Eq, Structural)]
pub struct Bounce {
    pub direction: Vec3,
    pub alignment: Scalar,
}

/// What a surface of `material` makes of the bounce `b` at `hit`: light that
/// leaves the place of the hit along the direction of the bounce, dimmed by
/// the albedo, or nothing where the surface swallows it.
pub open spec fn scattered(material: Material, hit: Hit, b: Bounce) -> Option<Scatter> {
    match material.attenuation(b.alignment) {
        Some(attenuation) => Some(
            Scatter { attenuation, scattered: Ray { origin: hit.p, direction: b.direction } },
        ),
        None => None,
    }
}

impl Material {
    /// The share of each colour channel that the surface gives back.
    pub open spec fn spec_albedo(&self) -> Vec3 {
        match *self {
            Material::Diffuse { albedo } => albedo,
            Material::Metal { albedo, .. } => albedo,
        }
    }

    /// Whether the material can exist: each channel of the albedo lies
    /// between zero and one, and so does the fuzz of a metal.
    pub open spec fn valid(self) -> bool {
        match self {
            Material::Diffuse { albedo } => albedo.probabilities(),
            Material::Metal { albedo, fuzz } => albedo.probabilities() && fuzz.probability(),
        }
    }

    /// By what the light that leaves is dimmed, or `None` where the surface
    /// swallows it. A diffuse surface always scatters. A metal scatters only
    /// where the ray that leaves points away from the surface: where
    /// `alignment`, its dot product with the surface normal, is above zero.
    pub open spec fn attenuation(self, alignment: Scalar) -> Option<Vec3> {
        match self {
            Material::Diffuse { albedo } => Some(albedo),
            Material::Metal { albedo, .. } => if alignment.positive() {
                Some(albedo)
            } else {
                None
            },
        }
    }

    #[verifier::when_used_as_spec(spec_albedo)]
    pub fn albedo(&self) -> (albedo: Vec3)
        ensures
            albedo == self.spec_albedo(),
    {
        match self {
            Material::Diffuse { albedo } => *albedo,
            Material::Metal { albedo, .. } => *albedo,
        }
    }

    /// Whether the material can exist.
    pub fn is_valid(&self) -> (valid: bool)
        ensures
            valid == self.valid(),
    {
        match self {
            Material::Diffuse { albedo } => albedo.are_probabilities(),
            Material::Metal { albedo, fuzz } => albedo.are_probabilities() && fuzz.is_probability(),
        }
    }

    /// Decides whether the surface scatters the light that reached it, and if
    /// so, by what the light is dimmed. `alignment` is the dot product of the
    /// leaving ray's direction with the surface normal; a diffuse surface
    /// does not look at it.
    pub fn attenuate(&self, alignment: Scalar) -> (attenuation: Option<Vec3>)
        ensures
            attenuation == self.attenuation(alignment),
    {
        match self {
            Material::Diffuse { albedo } => Some(*albedo),
            Material::Metal { albedo, .. } => {
                if alignment.is_positive() {
                    Some(*albedo)
                } else {
                    None
                }
            },
        }
    }

    /// What becomes of the light that came along `ray_in` and met the surface
    /// at `hit`.
    ///
    /// `bounce` does the arithmetic: it finds the way in which light would
    /// leave. The surface decides whether it does, and dims it by its albedo.
    pub fn scatter<B>(&self, ray_in: &Ray, hit: &Hit, bounce: &B) -> (scatter: Option<Scatter>) where
        B: Fn(&Material, &Ray, &Hit) -> Bounce,

        requires
            bounce.requires((self, ray_in, hit)),
        ensures
            exists|b: Bounce| #[trigger]
                bounce.ensures((self, ray_in, hit), b) && scatter == scattered(*self, *hit, b),
    {
        let b = bounce(self, ray_in, hit);
        let scatter = match self.attenuate(b.alignment) {
            Some(attenuation) => Some(
                Scatter { attenuation, scattered: Ray { origin: hit.p, direction: b.direction } },
            ),
            None => None,
        };
        assert(bounce.ensures((self, ray_in, hit), b) && scatter == scattered(*self, *hit, b));
        scatter
    }
}

/// Whether a point lies inside the unit sphere, by the square of its
/// distance from the centre: the square must be a number below one. This is
/// the test by which a random point is kept or drawn again.
pub fn in_unit_sphere(squared_length: &Scalar) -> (inside: bool)
    ensures
        inside == squared_length.less_than(Scalar { bits: ONE_BITS }),
{
    squared_length.lt(&Scalar::one())
}

/// Scattering gains no energy: light that a surface scatters is dimmed by
/// the surface's own albedo, which gives back at most all of each channel.
/// A diffuse surface never swallows light, and a metal swallows it exactly
/// where the leaving ray does not point away from the surface.
pub proof fn lemma_scattering_gains_no_energy(material: Material, alignment: Scalar)
    requires
        material.valid(),
    ensures
        match material.attenuation(alignment) {
            Some(attenuation) => attenuation == material.spec_albedo()
                && attenuation.probabilities(),
            None => material is Metal && !alignment.positive(),
        },
        material is Diffuse ==> material.attenuation(alignment) is Some,
{
}

} // verus!

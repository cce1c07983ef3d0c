//! How far a ray is followed, and what light comes back along it.
//!
//! A ray that meets nothing shows the background. A ray that meets a surface
//! is scattered and followed on, one level deeper, unless the surface
//! swallows it or the bounce budget is spent: then it shows black. The light
//! that comes back along a scattered ray is dimmed by the surface.

use crate::color::Color;
use crate::hittable::Crossings;
use crate::hittable::Hit;
use crate::hittable::Hittable;
use crate::hittable::Sphere;
use crate::material::scattered;
use crate::material::Bounce;
use crate::material::Material;
use crate::material::Scatter;
use crate::ray::Ray;
use crate::scalar::Scalar;
use crate::vector::Vec3;
use vstd::prelude::*;

verus! {

/// The bounce budget: how many times one path may be scattered.
pub const MAX_DEPTH: u8 = 50;

/// The bits of 0.001, the nearest distance at which a hit counts. A scattered
/// ray starts on a surface; without this margin it would hit that surface
/// again at once.
pub const NEAREST_BITS: u64 = 0x3f50_624d_d2f1_a9fc;

/// The bits of the largest finite double, the farthest distance at which a
/// hit counts.
pub const FARTHEST_BITS: u64 = 0x7fef_ffff_ffff_ffff;

/// What to do with a ray once it is known whether it met a surface.
#[derive(Clone, Copy, Debug, PartialEq, Eq, Structural)]
pub enum Verdict {
    /// The ray met nothing: it shows the background.
    Background,
    /// The ray met a surface with the budget spent: it shows black.
    Black,
    /// The ray met a surface with budget left: ask the surface's material.
    Scatter,
}

/// The verdict on a ray at `depth` that met a surface (`hit`) or did not.
pub open spec fn verdict(hit: bool, depth: u8) -> Verdict {
    if !hit {
        Verdict::Background
    } else if depth < MAX_DEPTH {
        Verdict::Scatter
    } else {
        Verdict::Black
    }
}

/// How many more levels a path at `depth` may go down.
pub open spec fn budget_left(depth: u8) -> nat {
    if depth < MAX_DEPTH {
        (MAX_DEPTH - depth) as nat
    } else {
        0
    }
}

/// Whether `color` can be the light that comes back along `ray`, a ray at
/// `depth`, through `scene`. The four functions do the arithmetic:
/// `crossings` that of a ray and a sphere, `bounce` that of the way in which
/// light leaves a surface, `background` that of the light of the background,
/// and `dim` that of dimming light by the share that a surface gives back.
pub open spec fn traced<Q, B, G, A>(
    ray: Ray,
    scene: Hittable,
    depth: u8,
    crossings: Q,
    bounce: B,
    background: G,
    dim: A,
    color: Color,
) -> bool where
    Q: Fn(&Sphere, &Ray) -> Crossings,
    B: Fn(&Material, &Ray, &Hit) -> Bounce,
    G: Fn(&Ray) -> Color,
    A: Fn(&Color, &Vec3) -> Color,

    decreases budget_left(depth),
{
    exists|hit: Option<Hit>| #[trigger]
        scene.hits(
            ray,
            Scalar { bits: NEAREST_BITS },
            Scalar { bits: FARTHEST_BITS },
            crossings,
            hit,
        ) && match verdict(hit is Some, depth) {
            Verdict::Background => background.ensures((&ray,), color),
            Verdict::Black => color.is_black(),
            Verdict::Scatter => exists|b: Bounce| #[trigger]
                bounce.ensures((&hit.unwrap().material, &ray, &hit.unwrap()), b) && match scattered(
                    hit.unwrap().material,
                    hit.unwrap(),
                    b,
                ) {
                    Some(scatter) => exists|deeper: Color|
                        traced(
                            scatter.scattered,
                            scene,
                            (depth + 1) as u8,
                            crossings,
                            bounce,
                            background,
                            dim,
                            deeper,
                        ) && #[trigger] dim.ensures((&deeper, &scatter.attenuation), color),
                    None => color.is_black(),
                },
        }
}

/// The nearest distance at which a hit counts.
pub fn nearest() -> (t_min: Scalar)
    ensures
        t_min == (Scalar { bits: NEAREST_BITS }),
{
    Scalar::from_bits(NEAREST_BITS)
}

/// The farthest distance at which a hit counts.
pub fn farthest() -> (t_max: Scalar)
    ensures
        t_max == (Scalar { bits: FARTHEST_BITS }),
{
    Scalar::from_bits(FARTHEST_BITS)
}

/// Decides what to do with a ray at `depth` once it is known whether it met
/// a surface. A miss shows the background whatever the depth and whatever
/// the scene holds.
pub fn after_intersection(hit: bool, depth: u8) -> (v: Verdict)
    ensures
        v == verdict(hit, depth),
{
    if !hit {
        Verdict::Background
    } else if depth < MAX_DEPTH {
        Verdict::Scatter
    } else {
        Verdict::Black
    }
}

/// The depth of the ray that a surface scattered at `depth`.
pub fn next_depth(depth: u8) -> (deeper: u8)
    requires
        depth < MAX_DEPTH,
    ensures
        deeper == depth + 1,
        deeper <= MAX_DEPTH,
        budget_left(deeper) < budget_left(depth),
{
    depth + 1
}

/// What color should this pixel be? The light that comes back along `ray`,
/// a ray at `depth`, through `scene`.
///
/// If the ray hits an object, it should reflect off that object, and the
/// reflection's colour is found in the same way, one level deeper. Otherwise,
/// it'll be the color of the background.
pub fn color_hit_by<Q, B, G, A>(
    ray: &Ray,
    scene: &Hittable,
    depth: u8,
    crossings: &Q,
    bounce: &B,
    background: &G,
    dim: &A,
) -> (color: Color) where
    Q: Fn(&Sphere, &Ray) -> Crossings,
    B: Fn(&Material, &Ray, &Hit) -> Bounce,
    G: Fn(&Ray) -> Color,
    A: Fn(&Color, &Vec3) -> Color,

    requires
        forall|sphere: Sphere, r: Ray|
            sphere.valid() ==> #[trigger] crossings.requires((&sphere, &r)),
        forall|material: Material, r: Ray, hit: Hit|
            material.valid() ==> #[trigger] bounce.requires((&material, &r, &hit)),
        forall|r: Ray| #[trigger] background.requires((&r,)),
        forall|light: Color, share: Vec3|
            light.valid() && share.probabilities() ==> #[trigger] dim.requires((&light, &share)),
    ensures
        traced(*ray, *scene, depth, *crossings, *bounce, *background, *dim, color),
    decreases budget_left(depth),
{
    let found = scene.hit(ray, nearest(), farthest(), crossings);
    match after_intersection(found.is_some(), depth) {
        Verdict::Background => background(ray),
        Verdict::Black => Color::black(),
        Verdict::Scatter => {
            let hit = found.unwrap();
            let material = hit.material;
            match material.scatter(ray, &hit, bounce) {
                Some(scatter) => {
                    let ghost b = choose|b: Bounce| #[trigger]
                        bounce.ensures((&material, ray, &hit), b) && Some(scatter) == scattered(
                            material,
                            hit,
                            b,
                        );
                    let deeper = color_hit_by(
                        &scatter.scattered,
                        scene,
                        next_depth(depth),
                        crossings,
                        bounce,
                        background,
                        dim,
                    );
                    proof {
                        use_type_invariant(&deeper);
                    }
                    let color = dim(&deeper, &scatter.attenuation);
                    assert(traced(
                        scatter.scattered,
                        *scene,
                        (depth + 1) as u8,
                        *crossings,
                        *bounce,
                        *background,
                        *dim,
                        deeper,
                    ) && dim.ensures((&deeper, &scatter.attenuation), color));
                    assert(bounce.ensures((&hit.material, ray, &hit), b));
                    color
                },
                None => {
                    let ghost b = choose|b: Bounce| #[trigger]
                        bounce.ensures((&material, ray, &hit), b) && None::<Scatter> == scattered(
                            material,
                            hit,
                            b,
                        );
                    assert(bounce.ensures((&hit.material, ray, &hit), b));
                    Color::black()
                },
            }
        },
    }
}

/// A ray that misses everything shows the background, and nothing else: the
/// light that comes back along it is what `background` gives for that ray,
/// at whatever depth, and whatever the scene holds.
pub proof fn lemma_miss_shows_background<Q, B, G, A>(
    ray: Ray,
    scene: Hittable,
    depth: u8,
    crossings: Q,
    bounce: B,
    background: G,
    dim: A,
    color: Color,
) where
    Q: Fn(&Sphere, &Ray) -> Crossings,
    B: Fn(&Material, &Ray, &Hit) -> Bounce,
    G: Fn(&Ray) -> Color,
    A: Fn(&Color, &Vec3) -> Color,

    requires
        forall|hit: Option<Hit>| #[trigger]
            scene.hits(
                ray,
                Scalar { bits: NEAREST_BITS },
                Scalar { bits: FARTHEST_BITS },
                crossings,
                hit,
            ) ==> hit is None,
        traced(ray, scene, depth, crossings, bounce, background, dim, color),
    ensures
        background.ensures((&ray,), color),
{
}

/// A scene that holds nothing shows the background everywhere: the light
/// that comes back along any ray, at any depth, is what `background` gives
/// for that ray.
pub proof fn lemma_empty_scene_shows_background<Q, B, G, A>(
    ray: Ray,
    scene: Hittable,
    depth: u8,
    crossings: Q,
    bounce: B,
    background: G,
    dim: A,
    color: Color,
) where
    Q: Fn(&Sphere, &Ray) -> Crossings,
    B: Fn(&Material, &Ray, &Hit) -> Bounce,
    G: Fn(&Ray) -> Color,
    A: Fn(&Color, &Vec3) -> Color,

    requires
        scene is Many,
        scene->Many_0@.len() == 0,
        traced(ray, scene, depth, crossings, bounce, background, dim, color),
    ensures
        background.ensures((&ray,), color),
{
}

/// A path with no way out ends in black. Where every ray meets a surface,
/// and dimming black gives black, the light that comes back along any ray is
/// black: the path is followed for as long as the budget lasts and no
/// longer.
pub proof fn lemma_no_escape_shows_black<Q, B, G, A>(
    ray: Ray,
    scene: Hittable,
    depth: u8,
    crossings: Q,
    bounce: B,
    background: G,
    dim: A,
    color: Color,
) where
    Q: Fn(&Sphere, &Ray) -> Crossings,
    B: Fn(&Material, &Ray, &Hit) -> Bounce,
    G: Fn(&Ray) -> Color,
    A: Fn(&Color, &Vec3) -> Color,

    requires
        forall|r: Ray, hit: Option<Hit>| #[trigger]
            scene.hits(
                r,
                Scalar { bits: NEAREST_BITS },
                Scalar { bits: FARTHEST_BITS },
                crossings,
                hit,
            ) ==> hit is Some,
        forall|light: Color, share: Vec3, dimmed: Color|
            light.is_black() && #[trigger] dim.ensures((&light, &share), dimmed)
                ==> dimmed.is_black(),
        traced(ray, scene, depth, crossings, bounce, background, dim, color),
    ensures
        color.is_black(),
    decreases budget_left(depth),
{
    let t_min = Scalar { bits: NEAREST_BITS };
    let t_max = Scalar { bits: FARTHEST_BITS };
    // The hit behind `color`, the bounce at that hit, and the light that came
    // back from one level deeper.
    let then_dimmed = |scatter: Scatter, deeper: Color|
        traced(scatter.scattered, scene, (depth + 1) as u8, crossings, bounce, background, dim, deeper)
            && dim.ensures((&deeper, &scatter.attenuation), color);
    let then_scattered = |hit: Hit, b: Bounce|
        bounce.ensures((&hit.material, &ray, &hit), b) && match scattered(hit.material, hit, b) {
            Some(scatter) => exists|deeper: Color|
                traced(
                    scatter.scattered,
                    scene,
                    (depth + 1) as u8,
                    crossings,
                    bounce,
                    background,
                    dim,
                    deeper,
                ) && #[trigger] dim.ensures((&deeper, &scatter.attenuation), color),
            None => color.is_black(),
        };
    let hit = choose|hit: Option<Hit>| #[trigger]
        scene.hits(ray, t_min, t_max, crossings, hit) && match verdict(hit is Some, depth) {
            Verdict::Background => background.ensures((&ray,), color),
            Verdict::Black => color.is_black(),
            Verdict::Scatter => exists|b: Bounce| #[trigger]
                bounce.ensures((&hit.unwrap().material, &ray, &hit.unwrap()), b) && then_scattered(
                    hit.unwrap(),
                    b,
                ),
        };
    if verdict(hit is Some, depth) == Verdict::Scatter {
        let b = choose|b: Bounce| #[trigger]
            bounce.ensures((&hit.unwrap().material, &ray, &hit.unwrap()), b) && then_scattered(
                hit.unwrap(),
                b,
            );
        if let Some(scatter) = scattered(hit.unwrap().material, hit.unwrap(), b) {
            let deeper = choose|deeper: Color|
                then_dimmed(scatter, deeper) && #[trigger] dim.ensures(
                    (&deeper, &scatter.attenuation),
                    color,
                );
            lemma_no_escape_shows_black(
                scatter.scattered,
                scene,
                (depth + 1) as u8,
                crossings,
                bounce,
                background,
                dim,
                deeper,
            );
        }
    }
}

} // verus!

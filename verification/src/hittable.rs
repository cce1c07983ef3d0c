//! What a ray meets.
//!
//! A scene is a sphere, or many scenes together. The arithmetic of a ray and
//! a sphere is handed in as a function; it finds where the ray's line crosses
//! the sphere. This module holds the rules that make a hit of that: which of
//! the two crossings counts, and which of the hits of many things is the one
//! the ray meets first.

use crate::material::Material;
use crate::ray::Ray;
use crate::scalar::Scalar;
use crate::vector::Vec3;
use vstd::prelude::*;
use vstd::seq_lib::*;

verus! {

/// One of the two places where a ray's line crosses a sphere.
#[derive(Clone, Copy, Debug, PartialEq, Eq, Structural)]
pub enum Root {
    /// The crossing with the minus sign before the square root.
    Near,
    /// The crossing with the plus sign before the square root.
    Far,
}

/// Whether `t` lies strictly between `t_min` and `t_max`.
pub open spec fn strictly_inside(t: Scalar, t_min: Scalar, t_max: Scalar) -> bool {
    t.less_than(t_max) && t_min.less_than(t)
}

/// The crossing that counts as the hit. There is none unless the discriminant
/// is above zero, so a ray that only touches the sphere misses it. The near
/// crossing counts if it lies strictly inside the interval; if it does not,
/// the far one is tried.
pub open spec fn chosen_root(
    discriminant: Scalar,
    near: Scalar,
    far: Scalar,
    t_min: Scalar,
    t_max: Scalar,
) -> Option<Root> {
    if !discriminant.positive() {
        None
    } else if strictly_inside(near, t_min, t_max) {
        Some(Root::Near)
    } else if strictly_inside(far, t_min, t_max) {
        Some(Root::Far)
    } else {
        None
    }
}

/// Whether a radius describes a sphere: a number above zero.
pub open spec fn valid_radius(radius: Scalar) -> bool {
    radius.positive()
}

/// Whether `t` lies strictly between `t_min` and `t_max`.
pub fn in_range(t: &Scalar, t_min: &Scalar, t_max: &Scalar) -> (inside: bool)
    ensures
        inside == strictly_inside(*t, *t_min, *t_max),
{
    t.lt(t_max) && t_min.lt(t)
}

/// Picks the crossing at which a ray hits a sphere, from the discriminant of
/// the quadratic and the distances of its two crossings.
pub fn select_root(
    discriminant: Scalar,
    near: Scalar,
    far: Scalar,
    t_min: Scalar,
    t_max: Scalar,
) -> (root: Option<Root>)
    ensures
        root == chosen_root(discriminant, near, far, t_min, t_max),
{
    if !discriminant.is_positive() {
        None
    } else if in_range(&near, &t_min, &t_max) {
        Some(Root::Near)
    } else if in_range(&far, &t_min, &t_max) {
        Some(Root::Far)
    } else {
        None
    }
}

/// Whether a radius describes a sphere.
pub fn is_valid_radius(radius: &Scalar) -> (valid: bool)
    ensures
        valid == valid_radius(*radius),
{
    radius.is_positive()
}

/// A ball in space, of one material. Its radius is a number above zero and
/// its material one that can exist: no sphere exists that breaks this.
#[derive(Clone, Copy, Debug, PartialEq, Eq, Structural)]
pub struct Sphere {
    center: Vec3,
    radius: Scalar,
    material: Material,
}

/// Where a ray met a surface.
#[derive(Clone, Copy, Debug, PartialEq, Eq, Structural)]
pub struct Hit {
    /// How far along the ray.
    pub t: Scalar,
    /// The place itself.
    pub p: Vec3,
    /// The direction that points straight out of the surface there.
    pub normal: Vec3,
    /// What the surface is made of.
    pub material: Material,
}

/// One place where a ray's line crosses a sphere, as the arithmetic found it.
#[derive(Clone, Copy, Debug, PartialEq, Eq, Structural)]
pub struct Crossing {
    /// How far along the ray.
    pub t: Scalar,
    /// The place itself.
    pub p: Vec3,
    /// The direction that points straight out of the sphere there.
    pub normal: Vec3,
}

/// What the arithmetic found of a ray's line and a sphere: the discriminant
/// of their quadratic, and the two crossings. Where the discriminant is not
/// above zero the crossings mean nothing, and nothing looks at them.
#[derive(Clone, Copy, Debug, PartialEq, Eq, Structural)]
pub struct Crossings {
    pub discriminant: Scalar,
    pub near: Crossing,
    pub far: Crossing,
}

/// The hit that a sphere of `material` reports for the crossings `c`.
pub open spec fn sphere_hit(material: Material, c: Crossings, t_min: Scalar, t_max: Scalar) -> Option<
    Hit,
> {
    match chosen_root(c.discriminant, c.near.t, c.far.t, t_min, t_max) {
        Some(Root::Near) => Some(
            Hit { t: c.near.t, p: c.near.p, normal: c.near.normal, material },
        ),
        Some(Root::Far) => Some(Hit { t: c.far.t, p: c.far.p, normal: c.far.normal, material }),
        None => None,
    }
}

impl Sphere {
    pub closed spec fn spec_center(&self) -> Vec3 {
        self.center
    }

    pub closed spec fn spec_radius(&self) -> Scalar {
        self.radius
    }

    pub closed spec fn spec_material(&self) -> Material {
        self.material
    }

    /// Whether the sphere can exist. Every sphere that a program holds can.
    #[verifier::type_invariant]
    pub open spec fn valid(self) -> bool {
        valid_radius(self.spec_radius()) && self.spec_material().valid()
    }

    /// The sphere with the given centre, radius and material, or nothing
    /// where the radius is not a number above zero or the material cannot
    /// exist.
    pub fn new(center: Vec3, radius: Scalar, material: Material) -> (sphere: Option<Sphere>)
        ensures
            sphere is Some <==> valid_radius(radius) && material.valid(),
            sphere matches Some(made) ==> made.spec_center() == center && made.spec_radius()
                == radius && made.spec_material() == material,
    {
        if is_valid_radius(&radius) && material.is_valid() {
            Some(Sphere { center, radius, material })
        } else {
            None
        }
    }

    #[verifier::when_used_as_spec(spec_center)]
    pub fn center(&self) -> (center: Vec3)
        ensures
            center == self.spec_center(),
    {
        self.center
    }

    #[verifier::when_used_as_spec(spec_radius)]
    pub fn radius(&self) -> (radius: Scalar)
        ensures
            radius == self.spec_radius(),
            valid_radius(radius),
    {
        proof {
            use_type_invariant(self);
        }
        self.radius
    }

    #[verifier::when_used_as_spec(spec_material)]
    pub fn material(&self) -> (material: Material)
        ensures
            material == self.spec_material(),
            material.valid(),
    {
        proof {
            use_type_invariant(self);
        }
        self.material
    }

    /// Does the ray hit this sphere?
    ///
    /// `crossings` does the arithmetic. The hit is at the crossing that
    /// counts, and bears the sphere's material.
    pub fn hit<Q>(&self, ray: &Ray, t_min: Scalar, t_max: Scalar, crossings: &Q) -> (hit: Option<
        Hit,
    >) where Q: Fn(&Sphere, &Ray) -> Crossings
        requires
            crossings.requires((self, ray)),
        ensures
            exists|c: Crossings| #[trigger]
                crossings.ensures((self, ray), c) && hit == sphere_hit(
                    self.spec_material(),
                    c,
                    t_min,
                    t_max,
                ),
            hit matches Some(h) ==> h.material.valid(),
    {
        let c = crossings(self, ray);
        let material = self.material();
        let hit = match select_root(c.discriminant, c.near.t, c.far.t, t_min, t_max) {
            Some(Root::Near) => Some(
                Hit { t: c.near.t, p: c.near.p, normal: c.near.normal, material },
            ),
            Some(Root::Far) => Some(
                Hit { t: c.far.t, p: c.far.p, normal: c.far.normal, material },
            ),
            None => None,
        };
        assert(crossings.ensures((self, ray), c) && hit == sphere_hit(
            self.spec_material(),
            c,
            t_min,
            t_max,
        ));
        hit
    }
}

/// Whether object `j` was hit at a distance below `t_max`. `ts` holds, for
/// each object of a scene in the order they are tested, the distance at which
/// the ray hit it, or `None` where it missed.
pub open spec fn is_candidate(ts: Seq<Option<Scalar>>, t_max: Scalar, j: int) -> bool {
    0 <= j < ts.len() && ts[j] is Some && ts[j].unwrap().less_than(t_max)
}

/// Whether object `i` is the one the ray meets first: it was hit, no other
/// hit is nearer, and every hit tested before it is strictly farther.
pub open spec fn is_closest(ts: Seq<Option<Scalar>>, t_max: Scalar, i: int) -> bool {
    &&& is_candidate(ts, t_max, i)
    &&& forall|j: int| #[trigger]
        is_candidate(ts, t_max, j) ==> ts[i].unwrap().at_most(ts[j].unwrap())
    &&& forall|j: int|
        j < i && #[trigger] is_candidate(ts, t_max, j) ==> ts[i].unwrap().less_than(
            ts[j].unwrap(),
        )
}

/// Picks, among the hits of the objects of a scene, the one the ray meets
/// first. Every object is looked at. Of two hits at the same distance the one
/// tested first wins. With no hit below `t_max`, and so for an empty scene,
/// there is none.
pub fn closest(ts: &Vec<Option<Scalar>>, t_max: Scalar) -> (best: Option<usize>)
    ensures
        match best {
            Some(i) => is_closest(ts@, t_max, i as int),
            None => forall|j: int| !is_candidate(ts@, t_max, j),
        },
{
    let mut closest_so_far = t_max;
    let mut best: Option<usize> = None;
    let mut k: usize = 0;
    while k < ts.len()
        invariant
            k <= ts.len(),
            match best {
                Some(i) => {
                    &&& i < k
                    &&& is_candidate(ts@, t_max, i as int)
                    &&& closest_so_far == ts@[i as int].unwrap()
                    &&& forall|j: int|
                        j < k && #[trigger] is_candidate(ts@, t_max, j)
                            ==> closest_so_far.at_most(ts@[j].unwrap())
                    &&& forall|j: int|
                        j < i && #[trigger] is_candidate(ts@, t_max, j)
                            ==> closest_so_far.less_than(ts@[j].unwrap())
                },
                None => {
                    &&& closest_so_far == t_max
                    &&& forall|j: int| j < k ==> !is_candidate(ts@, t_max, j)
                },
            },
        decreases ts.len() - k,
    {
        match &ts[k] {
            Some(t) => {
                if t.lt(&closest_so_far) {
                    closest_so_far = *t;
                    best = Some(k);
                }
            },
            None => {},
        }
        k += 1;
    }
    best
}

/// Anything a ray can hit: one sphere, or many things together.
pub enum Hittable {
    Sphere(Sphere),
    Many(Vec<Hittable>),
}

/// The distances of a run of hits and misses.
pub open spec fn distances(found: Seq<Option<Hit>>) -> Seq<Option<Scalar>> {
    Seq::new(
        found.len(),
        |k: int|
            match found[k] {
                Some(hit) => Some(hit.t),
                None => None,
            },
    )
}

/// Whether `hit` is what many things together report when each of them alone
/// reports what `found` holds for it: the closest of the hits, or no hit
/// where none of them is hit.
pub open spec fn nearest_of(found: Seq<Option<Hit>>, t_max: Scalar, hit: Option<Hit>) -> bool {
    match hit {
        Some(h) => exists|i: int| #[trigger]
            is_closest(distances(found), t_max, i) && found[i] == Some(h),
        None => forall|j: int| !is_candidate(distances(found), t_max, j),
    }
}

impl Hittable {
    /// Whether `hit` can be what the ray meets in this scene, where
    /// `crossings` does the arithmetic.
    pub open spec fn hits<Q: Fn(&Sphere, &Ray) -> Crossings>(
        self,
        ray: Ray,
        t_min: Scalar,
        t_max: Scalar,
        crossings: Q,
        hit: Option<Hit>,
    ) -> bool
        decreases self,
    {
        match self {
            Hittable::Sphere(sphere) => exists|c: Crossings| #[trigger]
                crossings.ensures((&sphere, &ray), c) && hit == sphere_hit(
                    sphere.spec_material(),
                    c,
                    t_min,
                    t_max,
                ),
            Hittable::Many(children) => exists|found: Seq<Option<Hit>>|
                found.len() == children.len() && (forall|k: int|
                    0 <= k < children.len() ==> children[k].hits(
                        ray,
                        t_min,
                        t_max,
                        crossings,
                        #[trigger] found[k],
                    )) && #[trigger] nearest_of(found, t_max, hit),
        }
    }

    /// What does the ray hit in this scene, if anything?
    ///
    /// A sphere reports its own hit. Many things together report the closest
    /// of their hits: every one of them is asked, with the same interval,
    /// and of two hits at the same distance the one asked first wins.
    pub fn hit<Q>(&self, ray: &Ray, t_min: Scalar, t_max: Scalar, crossings: &Q) -> (hit: Option<
        Hit,
    >) where Q: Fn(&Sphere, &Ray) -> Crossings
        requires
            forall|sphere: Sphere| sphere.valid() ==> #[trigger] crossings.requires((&sphere, ray)),
        ensures
            self.hits(*ray, t_min, t_max, *crossings, hit),
            hit matches Some(h) ==> h.material.valid(),
        decreases self,
    {
        match self {
            Hittable::Sphere(sphere) => {
                proof {
                    use_type_invariant(sphere);
                }
                sphere.hit(ray, t_min, t_max, crossings)
            },
            Hittable::Many(hittables) => {
                let mut found: Vec<Option<Hit>> = Vec::new();
                let mut ts: Vec<Option<Scalar>> = Vec::new();
                let mut k: usize = 0;
                while k < hittables.len()
                    invariant
                        *self == Hittable::Many(*hittables),
                        k <= hittables.len(),
                        found.len() == k,
                        ts@ == distances(found@),
                        forall|j: int|
                            0 <= j < k ==> (#[trigger] found[j] matches Some(h)
                                ==> h.material.valid()),
                        forall|sphere: Sphere|
                            sphere.valid() ==> #[trigger] crossings.requires((&sphere, ray)),
                        forall|j: int|
                            0 <= j < k ==> hittables[j].hits(
                                *ray,
                                t_min,
                                t_max,
                                *crossings,
                                #[trigger] found[j],
                            ),
                    decreases hittables.len() - k,
                {
                    proof {
                        assert(decreases_to!(*self => self->Many_0));
                    }
                    let hit = hittables[k].hit(ray, t_min, t_max, crossings);
                    ts.push(
                        match hit {
                            Some(h) => Some(h.t),
                            None => None,
                        },
                    );
                    found.push(hit);
                    assert(ts@ =~= distances(found@));
                    k += 1;
                }
                let hit = match closest(&ts, t_max) {
                    Some(i) => found[i],
                    None => None,
                };
                assert(nearest_of(found@, t_max, hit));
                hit
            },
        }
    }
}

/// Every hit lies strictly inside the interval that was asked for, however
/// deep in the scene the sphere lies that was hit.
pub proof fn lemma_hit_lies_inside_the_interval<Q: Fn(&Sphere, &Ray) -> Crossings>(
    scene: Hittable,
    ray: Ray,
    t_min: Scalar,
    t_max: Scalar,
    crossings: Q,
    hit: Option<Hit>,
)
    requires
        scene.hits(ray, t_min, t_max, crossings, hit),
    ensures
        hit matches Some(h) ==> strictly_inside(h.t, t_min, t_max),
    decreases scene,
{
    if let Hittable::Many(children) = scene {
        if let Some(h) = hit {
            let found = choose|found: Seq<Option<Hit>>|
                found.len() == children.len() && (forall|k: int|
                    0 <= k < children.len() ==> children[k].hits(
                        ray,
                        t_min,
                        t_max,
                        crossings,
                        #[trigger] found[k],
                    )) && #[trigger] nearest_of(found, t_max, hit);
            let i = choose|i: int| #[trigger]
                is_closest(distances(found), t_max, i) && found[i] == Some(h);
            lemma_hit_lies_inside_the_interval(children[i], ray, t_min, t_max, crossings, found[i]);
        }
    }
}

/// Many things together report the hit with the smallest distance among all
/// the hits of theirs, however many there are and however they overlap; they
/// report no hit only where none of them is hit. `found` holds what each of
/// `children` reports alone.
pub proof fn lemma_nearest_is_the_smallest<Q: Fn(&Sphere, &Ray) -> Crossings>(
    children: Seq<Hittable>,
    ray: Ray,
    t_min: Scalar,
    t_max: Scalar,
    crossings: Q,
    found: Seq<Option<Hit>>,
    hit: Option<Hit>,
)
    requires
        found.len() == children.len(),
        forall|k: int|
            0 <= k < children.len() ==> children[k].hits(
                ray,
                t_min,
                t_max,
                crossings,
                #[trigger] found[k],
            ),
        nearest_of(found, t_max, hit),
    ensures
        hit is None <==> forall|k: int| 0 <= k < found.len() ==> #[trigger] found[k] is None,
        hit matches Some(h) ==> found.contains(hit) && forall|k: int|
            0 <= k < found.len() ==> (#[trigger] found[k] matches Some(other) ==> h.t.at_most(
                other.t,
            )),
{
    let ts = distances(found);
    assert forall|k: int| 0 <= k < found.len() && #[trigger] found[k] is Some implies is_candidate(
        ts,
        t_max,
        k,
    ) by {
        lemma_hit_lies_inside_the_interval(children[k], ray, t_min, t_max, crossings, found[k]);
    }
    if let Some(h) = hit {
        let i = choose|i: int| #[trigger] is_closest(ts, t_max, i) && found[i] == Some(h);
        assert(found[i] is Some);
    }
}

/// At most one object is the closest: the rule leaves nothing open.
pub proof fn lemma_closest_is_unique(ts: Seq<Option<Scalar>>, t_max: Scalar, i: int, k: int)
    requires
        is_closest(ts, t_max, i),
        is_closest(ts, t_max, k),
    ensures
        i == k,
{
    if i < k {
        assert(is_candidate(ts, t_max, i));
    } else if k < i {
        assert(is_candidate(ts, t_max, k));
    }
}

/// What one of two scenes with the same hits holds at `i`, the other holds
/// somewhere.
proof fn lemma_found_in_both(a: Seq<Option<Scalar>>, b: Seq<Option<Scalar>>, i: int) -> (k: int)
    requires
        a.to_multiset() == b.to_multiset(),
        0 <= i < a.len(),
    ensures
        0 <= k < b.len(),
        b[k] == a[i],
{
    assert(a.contains(a[i]));
    to_multiset_contains(a, a[i]);
    to_multiset_contains(b, a[i]);
    choose|k: int| 0 <= k < b.len() && b[k] == a[i]
}

/// The distance of the closest hit does not depend on the order in which the
/// objects are tested: two scenes that hold the same hits, in whatever order,
/// are met at the same distance.
pub proof fn lemma_closest_ignores_order(
    a: Seq<Option<Scalar>>,
    b: Seq<Option<Scalar>>,
    t_max: Scalar,
    i: int,
    k: int,
)
    requires
        a.to_multiset() == b.to_multiset(),
        is_closest(a, t_max, i),
        is_closest(b, t_max, k),
    ensures
        a[i].unwrap().rank() == b[k].unwrap().rank(),
{
    let k2 = lemma_found_in_both(a, b, i);
    assert(is_candidate(b, t_max, k2));
    let i2 = lemma_found_in_both(b, a, k);
    assert(is_candidate(a, t_max, i2));
}

/// Whether any object is hit does not depend on the order either.
pub proof fn lemma_miss_ignores_order(a: Seq<Option<Scalar>>, b: Seq<Option<Scalar>>, t_max: Scalar)
    requires
        a.to_multiset() == b.to_multiset(),
        forall|j: int| !is_candidate(a, t_max, j),
    ensures
        forall|j: int| !is_candidate(b, t_max, j),
{
    assert forall|j: int| !is_candidate(b, t_max, j) by {
        if is_candidate(b, t_max, j) {
            let i = lemma_found_in_both(b, a, j);
            assert(is_candidate(a, t_max, i));
        }
    }
}

} // verus!

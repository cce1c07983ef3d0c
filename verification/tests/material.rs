use rand::thread_rng;
use rand::Rng;
use raytracer::material::in_unit_sphere;
use raytracer::material::Material;
use raytracer::scalar::Scalar;
use raytracer::vector::Vec3;

fn s(x: f64) -> Scalar {
    Scalar::from_bits(x.to_bits())
}

fn v(x: f64, y: f64, z: f64) -> Vec3 {
    Vec3::new(s(x), s(y), s(z))
}

fn squared_length(p: (f64, f64, f64)) -> f64 {
    (p.0 * p.0) + (p.1 * p.1) + (p.2 * p.2)
}

/// Generate a vector where all components are between -1 and 1, and which
/// lies inside the unit sphere.
fn random_in_unit_sphere<R: Rng>(rng: &mut R) -> (f64, f64, f64) {
    loop {
        let p = (
            rng.gen::<f64>() * 2.0 - 1.0,
            rng.gen::<f64>() * 2.0 - 1.0,
            rng.gen::<f64>() * 2.0 - 1.0,
        );
        if in_unit_sphere(&s(squared_length(p))) {
            return p;
        }
    }
}

#[test]
fn material_test_random_in_unit_sphere() {
    let p = random_in_unit_sphere(&mut thread_rng());
    assert!(squared_length(p) < 1.0);
}

#[test]
fn texture_test_random_in_unit_sphere() {
    let mut rng = thread_rng();
    let p = random_in_unit_sphere(&mut rng);
    assert!(squared_length(p) < 1.0);
}

#[test]
fn random_points_are_kept_exactly_where_they_lie_inside_the_unit_sphere() {
    let mut rng = thread_rng();
    for _ in 0..10000 {
        let p = (
            rng.gen::<f64>() * 2.0 - 1.0,
            rng.gen::<f64>() * 2.0 - 1.0,
            rng.gen::<f64>() * 2.0 - 1.0,
        );
        assert_eq!(in_unit_sphere(&s(squared_length(p))), squared_length(p) < 1.0);
    }
    assert!(in_unit_sphere(&s(0.0)));
    assert!(in_unit_sphere(&s(0.9999999999999999)));
    assert!(!in_unit_sphere(&s(1.0)));
    assert!(!in_unit_sphere(&s(3.0)));
    assert!(!in_unit_sphere(&s(f64::NAN)));
}

#[test]
fn diffuse_surface_always_scatters_with_its_albedo() {
    let albedo = v(0.8, 0.3, 0.8);
    let material = Material::Diffuse { albedo };
    assert_eq!(material.attenuate(s(1.0)), Some(albedo));
    assert_eq!(material.attenuate(s(0.0)), Some(albedo));
    assert_eq!(material.attenuate(s(-1.0)), Some(albedo));
    assert_eq!(material.attenuate(s(f64::NAN)), Some(albedo));
}

#[test]
fn metal_scatters_only_away_from_the_surface() {
    let albedo = v(0.3, 0.7, 0.7);
    let material = Material::Metal { albedo, fuzz: s(0.9) };
    assert_eq!(material.attenuate(s(0.25)), Some(albedo));
    assert_eq!(material.attenuate(s(1.0e-300)), Some(albedo));
    assert_eq!(material.attenuate(s(0.0)), None);
    assert_eq!(material.attenuate(s(-0.0)), None);
    assert_eq!(material.attenuate(s(-0.25)), None);
    assert_eq!(material.attenuate(s(f64::NAN)), None);
}

#[test]
fn scattered_light_is_dimmed_by_the_albedo_and_never_gains() {
    let materials = [
        Material::Diffuse { albedo: v(0.2, 0.2, 0.2) },
        Material::Diffuse { albedo: v(1.0, 0.0, 1.0) },
        Material::Metal { albedo: v(0.8, 0.8, 0.8), fuzz: s(0.1) },
    ];
    for material in materials.iter() {
        assert!(material.is_valid());
        let attenuation = material.attenuate(s(0.5)).unwrap();
        assert_eq!(attenuation, material.albedo());
        assert!(attenuation.are_probabilities());
    }
}

#[test]
fn material_is_valid_only_within_zero_to_one() {
    assert!(Material::Diffuse { albedo: v(0.0, 0.5, 1.0) }.is_valid());
    assert!(!Material::Diffuse { albedo: v(0.0, 1.5, 1.0) }.is_valid());
    assert!(!Material::Diffuse { albedo: v(-0.1, 0.5, 1.0) }.is_valid());
    assert!(!Material::Diffuse { albedo: v(0.1, 0.5, f64::NAN) }.is_valid());
    assert!(Material::Metal { albedo: v(0.3, 0.7, 0.7), fuzz: s(1.0) }.is_valid());
    assert!(!Material::Metal { albedo: v(0.3, 0.7, 0.7), fuzz: s(1.1) }.is_valid());
    assert!(!Material::Metal { albedo: v(0.3, 0.7, 7.0), fuzz: s(0.1) }.is_valid());
}

#[test]
fn vectors_are_built_from_their_components() {
    let a = v(1.0, 2.0, 3.0);
    assert_eq!(a.x, s(1.0));
    assert_eq!(a.y, s(2.0));
    assert_eq!(a.z, s(3.0));
    assert_eq!(Vec3::new_uniform(s(0.5)), v(0.5, 0.5, 0.5));
    assert_eq!(Vec3::zero(), v(0.0, 0.0, 0.0));
}

#[test]
fn direction_of_length_zero_is_refused() {
    assert!(v(0.0, 0.0, -1.0).is_direction());
    assert!(v(1.0e-300, 0.0, 0.0).is_direction());
    assert!(!v(0.0, 0.0, 0.0).is_direction());
    assert!(!v(-0.0, 0.0, -0.0).is_direction());
    assert!(!Vec3::zero().is_direction());
    assert!(!v(f64::NAN, 1.0, 0.0).is_direction());
}

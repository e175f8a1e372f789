//! Unit tests for the fixed-point arithmetic, vectors, colors, sampling and
//! material scattering.

use cpu_renderer::algebra::{Ray, Vec3};
use cpu_renderer::color::{Rgb, Rgb8};
use cpu_renderer::fixed::{clamp64, div_trunc, fx_div, fx_mul, fx_sqrt, sqrt_u128};
use cpu_renderer::material::Material;
use cpu_renderer::sampler::Rng;
use cpu_renderer::scene::HitRecord;

#[test]
fn fixed_multiplication_is_exact() {
    // 1.5 * 0.5 == 0.75
    assert_eq!(fx_mul(98304, 32768), 49152);
    // (-1.5) * 0.5 == -0.75, rounding toward zero
    assert_eq!(fx_mul(-98304, 32768), -49152);
    // 3 * 7 == 21
    assert_eq!(fx_mul(3 * 65536, 7 * 65536), 21 * 65536);
}

#[test]
fn fixed_division_is_exact() {
    // 1 / 2 == 0.5
    assert_eq!(fx_div(65536, 131072), 32768);
    // 21 / 7 == 3
    assert_eq!(fx_div(21 * 65536, 7 * 65536), 3 * 65536);
    // truncation toward zero for a negative dividend
    assert_eq!(div_trunc(-7, 2), -3);
    assert_eq!(div_trunc(7, 2), 3);
}

#[test]
fn fixed_square_root_is_exact() {
    // sqrt(4) == 2
    assert_eq!(fx_sqrt(4 * 65536), 2 * 65536);
    // sqrt(1) == 1
    assert_eq!(fx_sqrt(65536), 65536);
    // sqrt(0.125) == 0.35355..., floor at the last fixed-point digit
    assert_eq!(fx_sqrt(8192), 23170);
    // integer square root floors
    assert_eq!(sqrt_u128(15), 3);
    assert_eq!(sqrt_u128(16), 4);
    assert_eq!(sqrt_u128(0), 0);
}

#[test]
fn clamping() {
    assert_eq!(clamp64(70000, 0, 65536), 65536);
    assert_eq!(clamp64(-3, 0, 65536), 0);
    assert_eq!(clamp64(123, 0, 65536), 123);
}

#[test]
fn vector_products() {
    let a = Vec3::new(65536, 2 * 65536, 3 * 65536);
    let b = Vec3::new(4 * 65536, 5 * 65536, 6 * 65536);
    // 1*4 + 2*5 + 3*6 == 32
    assert_eq!(a.dot(&b), 32 * 65536);
    // (1,2,3) x (4,5,6) == (-3, 6, -3)
    assert_eq!(a.cross(&b), Vec3::new(-3 * 65536, 6 * 65536, -3 * 65536));
    assert_eq!(a.length_squared(), 14 * 65536);
}

#[test]
fn componentwise_product_and_accessors() {
    let a = Vec3::new(2 * 65536, 3 * 65536, 32768);
    let b = Vec3::new(32768, 2 * 65536, 2 * 65536);
    assert_eq!(a.mul(&b), Vec3::new(65536, 6 * 65536, 65536));
    assert_eq!((a.x(), a.y(), a.z()), (2 * 65536, 3 * 65536, 32768));
    let c = Rgb::new(1, 2, 3);
    assert_eq!((c.r(), c.g(), c.b()), (1, 2, 3));
}

#[test]
fn unit_direction_constructor_normalizes() {
    let r = Ray::with_unit_direction(&Vec3::new(65536, 0, 0), &Vec3::new(0, 0, -5 * 65536));
    assert_eq!(r.origin, Vec3::new(65536, 0, 0));
    assert_eq!(r.direction, Vec3::new(0, 0, -65536));
}

#[test]
fn vector_normalization() {
    // (3,4,0) has length 5; the unit vector is (0.6, 0.8, 0) up to the last
    // fixed-point digit.
    let v = Vec3::new(3 * 65536, 4 * 65536, 0);
    assert_eq!(v.length(), 5 * 65536);
    let n = v.normalized();
    assert_eq!(n, Vec3::new(39321, 52428, 0));
    // The zero vector stays zero.
    assert_eq!(Vec3::new(0, 0, 0).normalized(), Vec3::new(0, 0, 0));
}

#[test]
fn reflection_about_a_normal() {
    // A straight-down ray reflects straight up.
    let d = Vec3::new(0, -65536, 0);
    let n = Vec3::new(0, 65536, 0);
    assert_eq!(d.reflect(&n), Vec3::new(0, 65536, 0));
    // A 45-degree ray keeps its horizontal part.
    let d2 = Vec3::new(65536, -65536, 0);
    assert_eq!(d2.reflect(&n), Vec3::new(65536, 65536, 0));
}

#[test]
fn ray_interpolation() {
    let r = Ray { origin: Vec3::new(65536, 0, 0), direction: Vec3::new(0, 0, -65536) };
    assert_eq!(r.at(2 * 65536), Vec3::new(65536, 0, -2 * 65536));
    assert_eq!(r.at(0), Vec3::new(65536, 0, 0));
}

#[test]
fn color_attenuation_and_gamma() {
    let half = Rgb::gray(32768);
    let full = Rgb::white();
    assert_eq!(full.attenuate(&half), Rgb::new(32768, 32768, 32768));
    // 0.5 * 0.5 == 0.25
    assert_eq!(half.attenuate(&half), Rgb::new(16384, 16384, 16384));
    // gamma 2: sqrt(0.25) == 0.5, sqrt(1) == 1
    assert_eq!(Rgb::new(16384, 65536, 0).gamma_corrected(), Rgb::new(32768, 65536, 0));
}

#[test]
fn color_quantization() {
    assert_eq!(Rgb::new(65536, 32768, 0).quantized(), Rgb8 { r: 255, g: 128, b: 0 });
    // Channels outside the unit interval are clamped first.
    assert_eq!(Rgb::new(999999, -5, 65535).quantized(), Rgb8 { r: 255, g: 0, b: 255 });
}

#[test]
fn color_accumulation() {
    let a = Rgb::new(100, 200, 300);
    let b = Rgb::new(1, 2, 3);
    assert_eq!(a.add(&b), Rgb::new(101, 202, 303));
    assert_eq!(Rgb::new(100, 200, 300).divided_by(2), Rgb::new(50, 100, 150));
}

#[test]
fn sampler_draws_stay_in_range() {
    let mut rng = Rng::from_seed(1);
    for _ in 0..200 {
        let f = rng.random_float();
        assert!((0..65536).contains(&f));
    }
    let v = rng.random_vec3_in_range(16384, 32768);
    for ch in [v.x, v.y, v.z] {
        assert!((16384..=32768).contains(&ch));
    }
}

#[test]
fn sphere_samples_are_unit_vectors() {
    let mut rng = Rng::from_seed(2);
    for _ in 0..100 {
        let s = rng.sample_sphere();
        let len = s.length();
        // Unit up to fixed-point truncation, a few last digits either way.
        assert!((65528..=65544).contains(&len), "length {len}");
    }
}

#[test]
fn disk_samples_lie_in_the_plane() {
    let mut rng = Rng::from_seed(3);
    for _ in 0..100 {
        let d = rng.sample_disk();
        assert_eq!(d.z, 0);
        assert!(d.x.abs() <= 65536 && d.y.abs() <= 65536);
    }
}

#[test]
fn hemisphere_samples_respect_the_normal() {
    // Hemisphere containment: dot(d, n) >= 0 for every draw.
    for seed in 0..40 {
        let mut rng = Rng::from_seed(seed);
        let n = Vec3::new(0, 0, 65536);
        let s = rng.sample_hemisphere(&n);
        assert!(s.dot(&n) >= 0);
        let n2 = Vec3::new(-37837, 37837, 37837);
        let s2 = rng.sample_hemisphere(&n2);
        assert!(s2.dot(&n2) >= 0);
    }
}

#[test]
fn material_constructors_clamp_their_parameters() {
    match Material::metal(Rgb::gray(32768), 999999) {
        Material::Metal { fuzz, .. } => assert_eq!(fuzz, 65536),
        _ => panic!("expected a metal"),
    }
    match Material::metal(Rgb::gray(32768), -5) {
        Material::Metal { fuzz, .. } => assert_eq!(fuzz, 0),
        _ => panic!("expected a metal"),
    }
    match Material::dielectric(1) {
        Material::Dielectric { index_of_refraction } => assert_eq!(index_of_refraction, 4096),
        _ => panic!("expected a dielectric"),
    }
}

fn front_hit_at_origin() -> HitRecord {
    HitRecord {
        point: Vec3::new(0, 0, 0),
        normal: Vec3::new(0, 0, 65536),
        material: 0,
        t: 65536,
        is_front_face: true,
    }
}

#[test]
fn lambertian_scatter_bounces_into_the_hemisphere() {
    let mat = Material::lambertian(Rgb::new(6554, 13107, 32768));
    let incident = Ray { origin: Vec3::new(0, 0, 65536), direction: Vec3::new(0, 0, -65536) };
    let surface = front_hit_at_origin();
    for seed in 0..40 {
        let mut rng = Rng::from_seed(seed);
        let (att, sray) = mat.scatter(&incident, &surface, &mut rng).unwrap();
        assert_eq!(att, Rgb::new(6554, 13107, 32768));
        assert_eq!(sray.origin, surface.point);
        assert!(sray.direction.dot(&surface.normal) >= 0);
    }
}

#[test]
fn polished_metal_mirrors_exactly() {
    let mat = Material::metal(Rgb::new(52429, 39322, 13107), 0);
    let incident = Ray { origin: Vec3::new(0, 0, 65536), direction: Vec3::new(0, 0, -65536) };
    let surface = front_hit_at_origin();
    let mut rng = Rng::from_seed(11);
    let (att, sray) = mat.scatter(&incident, &surface, &mut rng).unwrap();
    assert_eq!(att, Rgb::new(52429, 39322, 13107));
    assert_eq!(sray.origin, surface.point);
    // A straight-on ray bounces straight back.
    assert_eq!(sray.direction, Vec3::new(0, 0, 65536));
}

#[test]
fn total_internal_reflection_is_deterministic() {
    // A shallow ray leaving the glass: refraction ratio 1.5 and a large
    // sine force reflection regardless of the random draw.
    let mat = Material::dielectric(98304);
    let incident = Ray { origin: Vec3::new(-65536, 0, 65536), direction: Vec3::new(65536, 0, -30000) };
    let surface = HitRecord {
        point: Vec3::new(0, 0, 0),
        normal: Vec3::new(0, 0, 65536),
        material: 0,
        t: 65536,
        is_front_face: false,
    };
    let expected = incident.direction.normalized().reflect(&surface.normal);
    for seed in 0..40 {
        let mut rng = Rng::from_seed(seed);
        let (att, sray) = mat.scatter(&incident, &surface, &mut rng).unwrap();
        assert_eq!(att, Rgb::white());
        assert_eq!(sray.direction, expected);
    }
}

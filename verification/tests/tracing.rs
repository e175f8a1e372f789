//! Tests for intersection, the scene scan, the integrator and the render
//! driver, including the end-to-end silhouette property.

use cpu_renderer::algebra::{Ray, Vec3};
use cpu_renderer::camera::{Camera, CameraParams};
use cpu_renderer::color::{Rgb, Rgb8};
use cpu_renderer::fixed::{T_MAX};
use cpu_renderer::material::Material;
use cpu_renderer::render::{background_color, finish_pixel, ray_color, render_pixel, render_scene};
use cpu_renderer::sampler::Rng;
use cpu_renderer::scene::{Scene, Sphere, EPSILON};
use cpu_renderer::scenes::{cover_scene, simple_scene};

fn one_sphere_scene(center: Vec3, radius: i64, material: Material) -> Scene {
    let mut scene = Scene::new();
    let idx = scene.add_material(material);
    assert!(scene.add_sphere(center, radius, idx));
    scene
}

#[test]
fn axial_hit_lands_at_one_minus_radius() {
    // A ray from the origin straight at a sphere of radius 0.5 centered at
    // (0,0,-1) hits at t = 1 - r = 0.5 exactly, and the hit point is
    // origin + t * direction.
    let sphere = Sphere { center: Vec3::new(0, 0, -65536), radius: 32768, material: 0 };
    let ray = Ray { origin: Vec3::new(0, 0, 0), direction: Vec3::new(0, 0, -65536) };
    let hit = sphere.bounded_hit(&ray, EPSILON, T_MAX).unwrap();
    assert_eq!(hit.t, 32768);
    assert_eq!(hit.point, ray.at(hit.t));
    assert_eq!(hit.point, Vec3::new(0, 0, -32768));
    assert!(hit.is_front_face);
    assert_eq!(hit.normal, Vec3::new(0, 0, 65536));
    // The same geometry with radius 0.25 hits at t = 0.75, again exactly.
    let small = Sphere { center: Vec3::new(0, 0, -65536), radius: 16384, material: 0 };
    let hit2 = small.bounded_hit(&ray, EPSILON, T_MAX).unwrap();
    assert_eq!(hit2.t, 49152);
    assert_eq!(hit2.point, Vec3::new(0, 0, -49152));
}

#[test]
fn zero_aperture_rays_are_deterministic() {
    // With no lens blur the primary ray is a pure function of the viewport
    // coordinates, whatever the sampler draws.
    let camera = test_camera();
    let mut rng_a = Rng::from_seed(100);
    let mut rng_b = Rng::from_seed(9999);
    for (s, t) in [(0, 0), (32768, 16384), (65536, 65536)] {
        let ra = camera.ray(s, t, &mut rng_a);
        let rb = camera.ray(s, t, &mut rng_b);
        assert_eq!(ra, rb);
    }
}

#[test]
fn miss_returns_nothing() {
    let sphere = Sphere { center: Vec3::new(0, 0, -131072), radius: 32768, material: 0 };
    let ray = Ray { origin: Vec3::new(0, 0, 0), direction: Vec3::new(0, 65536, 0) };
    assert!(sphere.bounded_hit(&ray, EPSILON, T_MAX).is_none());
    // A degenerate zero-length direction never hits.
    let still = Ray { origin: Vec3::new(0, 0, 0), direction: Vec3::new(0, 0, 0) };
    assert!(sphere.bounded_hit(&still, EPSILON, T_MAX).is_none());
}

#[test]
fn negative_radius_gives_an_inward_normal() {
    // The hollow-shell invariant: on a sphere of radius -0.45, the normal at
    // a hit point makes an obtuse angle with the outward radial vector.
    let shell = Sphere { center: Vec3::new(-65536, 0, -65536), radius: -29491, material: 0 };
    let ray = Ray { origin: Vec3::new(-65536, 0, -65536), direction: Vec3::new(0, 0, -65536) };
    let hit = shell.bounded_hit(&ray, EPSILON, T_MAX).unwrap();
    let radial = hit.point.sub(&shell.center);
    assert!(hit.normal.dot(&radial) < 0);
    // The same query on the enclosing outer sphere of radius 0.5, struck
    // from outside, gives an outward normal.
    let outer = Sphere { center: Vec3::new(-65536, 0, -65536), radius: 32768, material: 0 };
    let from_outside = Ray { origin: Vec3::new(-65536, 0, 65536), direction: Vec3::new(0, 0, -65536) };
    let hit2 = outer.bounded_hit(&from_outside, EPSILON, T_MAX).unwrap();
    let radial2 = hit2.point.sub(&outer.center);
    assert!(hit2.normal.dot(&radial2) > 0);
}

#[test]
fn equal_distance_ties_keep_the_earlier_sphere() {
    // Two spheres struck at exactly the same parameter: a later candidate is
    // accepted only if strictly closer, so the first sphere's record wins.
    let mut scene = Scene::new();
    let first = scene.add_material(Material::lambertian(Rgb::gray(16384)));
    let second = scene.add_material(Material::lambertian(Rgb::gray(49152)));
    // Two coincident spheres: both front surfaces lie at t = 1.5.
    assert!(scene.add_sphere(Vec3::new(0, 0, -2 * 65536), 32768, first));
    assert!(scene.add_sphere(Vec3::new(0, 0, -2 * 65536), 32768, second));
    let ray = Ray { origin: Vec3::new(0, 0, 0), direction: Vec3::new(0, 0, -65536) };
    let hit = scene.hit(&ray).unwrap();
    assert_eq!(hit.material, first);
    assert_eq!(hit.t, 98304);
}

#[test]
fn nearest_hit_wins_across_the_scene() {
    let mut scene = Scene::new();
    let m = scene.add_material(Material::lambertian(Rgb::gray(32768)));
    // The farther sphere first, the nearer one second: order must not matter.
    assert!(scene.add_sphere(Vec3::new(0, 0, -5 * 65536), 32768, m));
    assert!(scene.add_sphere(Vec3::new(0, 0, -2 * 65536), 32768, m));
    let ray = Ray { origin: Vec3::new(0, 0, 0), direction: Vec3::new(0, 0, -65536) };
    let hit = scene.hit(&ray).unwrap();
    // The nearer sphere is struck at t = 1.5.
    assert_eq!(hit.t, 98304);
}

#[test]
fn shadow_acne_floor_ignores_the_surface_itself() {
    let sphere = Sphere { center: Vec3::new(0, 0, -65536), radius: 32768, material: 0 };
    // A ray restarting exactly on the surface, heading away: the epsilon
    // floor suppresses the immediate self-intersection.
    let ray = Ray { origin: Vec3::new(0, 0, -32768), direction: Vec3::new(0, 0, 65536) };
    assert!(sphere.bounded_hit(&ray, EPSILON, T_MAX).is_none());
}

#[test]
fn invalid_scene_additions_are_rejected() {
    let mut scene = Scene::new();
    // No material with index 0 exists yet.
    assert!(!scene.add_sphere(Vec3::new(0, 0, 0), 65536, 0));
    let m = scene.add_material(Material::lambertian(Rgb::gray(32768)));
    assert!(scene.add_sphere(Vec3::new(0, 0, 0), 65536, m));
    // A center outside the world's coordinate range is refused.
    assert!(!scene.add_sphere(Vec3::new(i64::MAX, 0, 0), 65536, m));
}

#[test]
fn depth_zero_is_black() {
    let scene = one_sphere_scene(
        Vec3::new(0, 0, -131072),
        65536,
        Material::lambertian(Rgb::gray(32768)),
    );
    let ray = Ray { origin: Vec3::new(0, 0, 0), direction: Vec3::new(0, 0, -65536) };
    let mut rng = Rng::from_seed(5);
    assert_eq!(ray_color(&ray, &scene, &mut rng, 0), Rgb::black());
}

#[test]
fn escaping_rays_paint_the_background_gradient() {
    let scene = one_sphere_scene(
        Vec3::new(0, 0, -131072),
        65536,
        Material::lambertian(Rgb::gray(32768)),
    );
    // Straight up: the top of the gradient, the light blue.
    let up = Ray { origin: Vec3::new(0, 0, 0), direction: Vec3::new(0, 65536, 0) };
    let mut rng = Rng::from_seed(6);
    let c = ray_color(&up, &scene, &mut rng, 8);
    assert_eq!(c, Rgb::new(32768, 45875, 65536));
    assert_eq!(c, background_color(&up));
    // Straight down: the bottom of the gradient, white.
    let down = Ray { origin: Vec3::new(0, 0, 0), direction: Vec3::new(0, -65536, 0) };
    let c2 = ray_color(&down, &scene, &mut rng, 8);
    assert_eq!(c2, Rgb::white());
}

#[test]
fn example_scenes_are_consistent() {
    let (scene, _camera) = simple_scene(65536);
    assert_eq!(scene.spheres.len(), 5);
    assert_eq!(scene.materials.len(), 4);
    // The two glass surfaces share one material through the arena.
    assert_eq!(scene.spheres[2].material, scene.spheres[3].material);
    for s in &scene.spheres {
        assert!(s.material < scene.materials.len());
    }
    let mut rng = Rng::from_seed(9);
    let (cover, _camera2) = cover_scene(&mut rng, 116053);
    assert!(cover.spheres.len() >= 70);
    for s in &cover.spheres {
        assert!(s.material < cover.materials.len());
    }
}

#[test]
fn small_render_has_the_right_shape() {
    let scene = one_sphere_scene(
        Vec3::new(0, 0, -131072),
        65536,
        Material::lambertian(Rgb::new(6554, 13107, 32768)),
    );
    let camera = test_camera();
    let mut rng = Rng::from_seed(12);
    let img = render_scene(&scene, &camera, &mut rng, 3, 2, 4, 3);
    assert_eq!(img.len(), 12);
}

fn test_camera() -> Camera {
    // Eye at the origin looking down -z with a 90-degree vertical field of
    // view, square viewport, no lens blur.
    Camera::new(CameraParams {
        origin: Vec3::new(0, 0, 0),
        look_at: Vec3::new(0, 0, -65536),
        up: Vec3::new(0, 65536, 0),
        aspect_ratio: 65536,
        tan_half_fov_y: 65536,
        aperture: 0,
        focus_distance: 65536,
    })
}

/// The analytic fixed-point sphere intersection test, written out in the
/// test itself: true when the ray meets the sphere at a parameter in
/// [EPSILON, T_MAX].
fn analytic_hit(ray: &Ray, center: Vec3, radius: i64) -> bool {
    let dx = ray.direction.x as i128;
    let dy = ray.direction.y as i128;
    let dz = ray.direction.z as i128;
    let ocx = ray.origin.x as i128 - center.x as i128;
    let ocy = ray.origin.y as i128 - center.y as i128;
    let ocz = ray.origin.z as i128 - center.z as i128;
    let a = (dx * dx + dy * dy + dz * dz) / 65536;
    if a <= 0 {
        return false;
    }
    let half_b = (ocx * dx + ocy * dy + ocz * dz) / 65536;
    let c = (ocx * ocx + ocy * ocy + ocz * ocz) / 65536 - (radius as i128 * radius as i128) / 65536;
    let disc = half_b * half_b - a * c;
    if disc < 0 {
        return false;
    }
    let sq = isqrt128(disc);
    let root1 = (-half_b - sq) * 65536 / a;
    let root2 = (-half_b + sq) * 65536 / a;
    let lo = EPSILON as i128;
    let hi = T_MAX as i128;
    (lo <= root1 && root1 <= hi) || (lo <= root2 && root2 <= hi)
}

fn isqrt128(n: i128) -> i128 {
    let mut lo: i128 = 0;
    let mut hi: i128 = 1 << 63;
    while lo + 1 < hi {
        let mid = lo + (hi - lo) / 2;
        if mid * mid <= n {
            lo = mid;
        } else {
            hi = mid;
        }
    }
    lo
}

#[test]
fn one_sphere_silhouette_matches_the_analytic_test() {
    // A single sphere of radius 1 two units in front of the camera, rendered
    // at one sample per pixel and bounce depth 1.  Every pixel whose jittered
    // primary ray meets the sphere ends black (one bounce of any material
    // attenuates the depth-zero black); every other pixel shows the exact
    // background gradient.  The classification is checked against the
    // analytic intersection test, replaying the sampler's draws.
    let center = Vec3::new(0, 0, -131072);
    let radius = 65536;
    let scene = one_sphere_scene(center, radius, Material::lambertian(Rgb::new(6554, 13107, 32768)));
    let camera = test_camera();
    let seed = 7;
    let (width, height) = (9u32, 9u32);

    let mut rng = Rng::from_seed(seed);
    let img = render_scene(&scene, &camera, &mut rng, 1, 1, width, height);
    assert_eq!(img.len(), 81);

    // Replay the identical stream of draws pixel by pixel.
    let mut replay = Rng::from_seed(seed);
    for row in 0..height {
        for col in 0..width {
            let du = replay.random_float();
            let dv = replay.random_float();
            let u = (col as i64 * 65536 + du) / (width as i64);
            let v = 65536 - (row as i64 * 65536 + dv) / (height as i64);
            let ray = camera.ray(u, v, &mut replay);
            let c = ray_color(&ray, &scene, &mut replay, 1);
            let expected = finish_pixel(&c, 1);
            let px = img[(row * width + col) as usize];
            assert_eq!(px, expected, "pixel ({col},{row})");

            // Classification: black exactly where the analytic test hits.
            let hits = analytic_hit(&ray, center, radius);
            let black = px == (Rgb8 { r: 0, g: 0, b: 0 });
            assert_eq!(hits, black, "pixel ({col},{row})");
            if !hits {
                // Outside the silhouette the pixel is the finished exact
                // background gradient.
                assert_eq!(px, finish_pixel(&background_color(&ray), 1));
            }
        }
    }

    // The geometry leaves no doubt at the center and at the corners.
    assert_eq!(img[(4 * width + 4) as usize], Rgb8 { r: 0, g: 0, b: 0 });
    assert_ne!(img[0], Rgb8 { r: 0, g: 0, b: 0 });
    assert_ne!(img[80], Rgb8 { r: 0, g: 0, b: 0 });
}

#[test]
fn render_pixel_agrees_with_a_replay() {
    let scene = one_sphere_scene(
        Vec3::new(0, 0, -131072),
        65536,
        Material::lambertian(Rgb::new(6554, 13107, 32768)),
    );
    let camera = test_camera();
    let mut rng = Rng::from_seed(21);
    let px = render_pixel(&scene, &camera, &mut rng, 1, 2, 5, 5, 4, 3);

    let mut replay = Rng::from_seed(21);
    let mut sum = Rgb::black();
    for _ in 0..4 {
        let du = replay.random_float();
        let dv = replay.random_float();
        let u = (65536 + du) / 5;
        let v = 65536 - (2 * 65536 + dv) / 5;
        let ray = camera.ray(u, v, &mut replay);
        let c = ray_color(&ray, &scene, &mut replay, 3);
        sum = sum.add(&c);
    }
    assert_eq!(px, finish_pixel(&sum, 4));
}

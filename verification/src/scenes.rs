//! The two example scenes: a three-sphere arrangement, and the many-sphere
//! cover image.  All coordinates are fixed-point constants.

use vstd::prelude::*;

use crate::algebra::{spec_v_len, spec_v_sub, V3i, Vec3};
use crate::camera::{camera_wf, Camera, CameraParams};
use crate::color::{rgb_wf, Rgb};
use crate::fixed::{clamp64, fx_mul, lemma_unit_mul_range};
use crate::material::Material;
use crate::sampler::Rng;
use crate::scene::{scene_wf, Scene, Sphere};

verus! {

/// The scene with three large spheres over a wide ground sphere; the five
/// spheres and their four materials are fixed, the two glass surfaces
/// sharing one arena entry.
pub fn simple_scene(aspect_ratio: i64) -> (r: (Scene, Camera))
    requires
        1 <= aspect_ratio <= 524288,
    ensures
        scene_wf(&r.0),
        camera_wf(r.1@),
        r.0.spheres@.len() == 5,
        r.0.materials@.len() == 4,
        r.0.materials@[0] == (Material::Lambertian { albedo: Rgb { r: 52429, g: 52429, b: 0 } }),
        r.0.materials@[1] == (Material::Lambertian { albedo: Rgb { r: 6554, g: 13107, b: 32768 } }),
        r.0.materials@[2] == (Material::Dielectric { index_of_refraction: 98304 }),
        r.0.materials@[3] == (Material::Metal {
            albedo: Rgb { r: 52429, g: 39322, b: 13107 },
            fuzz: 0,
        }),
        r.0.spheres@[0] == (Sphere {
            center: Vec3 { x: 0, y: -6586368i64, z: -65536i64 },
            radius: 6553600,
            material: 0,
        }),
        r.0.spheres@[1] == (Sphere {
            center: Vec3 { x: 0, y: 0, z: -65536i64 },
            radius: 32768,
            material: 1,
        }),
        r.0.spheres@[2] == (Sphere {
            center: Vec3 { x: -65536i64, y: 0, z: -65536i64 },
            radius: 32768,
            material: 2,
        }),
        r.0.spheres@[3] == (Sphere {
            center: Vec3 { x: -65536i64, y: 0, z: -65536i64 },
            radius: -29491i64,
            material: 2,
        }),
        r.0.spheres@[4] == (Sphere {
            center: Vec3 { x: 65536, y: 0, z: -65536i64 },
            radius: 32768,
            material: 3,
        }),
{
    let mut scene: Scene = Scene::new();

    // Ground: a very large diffuse sphere below the others.
    let ground = scene.add_material(Material::lambertian(Rgb::new(52429, 52429, 0)));
    let _ok1 = scene.add_sphere(Vec3::new(0, -6586368, -65536), 6553600, ground);

    // Middle diffuse sphere.
    let middle = scene.add_material(Material::lambertian(Rgb::new(6554, 13107, 32768)));
    let _ok2 = scene.add_sphere(Vec3::new(0, 0, -65536), 32768, middle);

    // Left glass sphere: outer surface and inner hollow shell share one
    // material.
    let glass = scene.add_material(Material::dielectric(98304));
    let _ok3 = scene.add_sphere(Vec3::new(-65536, 0, -65536), 32768, glass);
    let _ok4 = scene.add_sphere(Vec3::new(-65536, 0, -65536), -29491, glass);

    // Right metal sphere.
    let metal = scene.add_material(Material::metal(Rgb::new(52429, 39322, 13107), 0));
    let _ok5 = scene.add_sphere(Vec3::new(65536, 0, -65536), 32768, metal);

    // Camera looking at the middle sphere; the focus distance is the
    // distance from the eye to it.
    let origin = Vec3::new(-196608, 196608, 131072);
    let focus = Vec3::new(0, 0, -65536);
    let dist: i64 = focus.sub(&origin).length();
    let camera = Camera::new(
        CameraParams {
            origin,
            look_at: focus,
            up: Vec3::new(0, 65536, 0),
            aspect_ratio,
            tan_half_fov_y: 17560,
            aperture: 13107,
            focus_distance: clamp64(dist, 1, 4194304),
        },
    );
    (scene, camera)
}

/// A sphere the cover scene's body may contain: a randomly placed small
/// sphere (radius 1/5 at ground level, inside the grid, clear of the large
/// metal sphere), or one of the three large unit spheres.
pub open spec fn cover_body_sphere(sp: Sphere) -> bool {
    ||| {
        &&& sp.radius == 13107
        &&& sp.center@.y == 13107
        &&& -720896 <= sp.center@.x <= 779878
        &&& -720896 <= sp.center@.z <= 779878
        &&& spec_v_len(spec_v_sub(sp.center@, (V3i { x: 262144, y: 13107, z: 0 }))) > 58982
    }
    ||| (sp.center@ == (V3i { x: 0, y: 65536, z: 0 }) && sp.radius == 65536)
    ||| (sp.center@ == (V3i { x: -262144, y: 65536, z: 0 }) && sp.radius == 65536)
    ||| (sp.center@ == (V3i { x: 262144, y: 65536, z: 0 }) && sp.radius == 65536)
}

/// A material the cover scene may hold: a diffuse surface with a
/// unit-interval albedo, a metallic surface whose albedo was drawn from
/// [1/2, 1] with a unit-interval fuzz, or the glass with refractive index
/// 3/2.
pub open spec fn cover_material(m: Material) -> bool {
    match m {
        Material::Lambertian { albedo } => rgb_wf(albedo@),
        Material::Metal { albedo, fuzz } => {
            &&& 32768 <= albedo@.x <= 65536
            &&& 32768 <= albedo@.y <= 65536
            &&& 32768 <= albedo@.z <= 65536
            &&& 0 <= fuzz <= 65536
        },
        Material::Dielectric { index_of_refraction } => index_of_refraction == 98304,
    }
}

/// The three large unit spheres stand at the end of the list: the glass one
/// at the middle, the diffuse brown one on the left, the polished steel one
/// on the right.
pub open spec fn cover_big_three_at_end(s: &Scene) -> bool {
    let n = s.spheres@.len();
    &&& n >= 4
    &&& s.spheres@[n - 3].center@ == (V3i { x: 0, y: 65536, z: 0 })
    &&& s.spheres@[n - 3].radius == 65536
    &&& s.materials@[s.spheres@[n - 3].material as int] == (Material::Dielectric {
        index_of_refraction: 98304,
    })
    &&& s.spheres@[n - 2].center@ == (V3i { x: -262144, y: 65536, z: 0 })
    &&& s.spheres@[n - 2].radius == 65536
    &&& s.materials@[s.spheres@[n - 2].material as int] == (Material::Lambertian {
        albedo: Rgb { r: 26214, g: 13107, b: 6554 },
    })
    &&& s.spheres@[n - 1].center@ == (V3i { x: 262144, y: 65536, z: 0 })
    &&& s.spheres@[n - 1].radius == 65536
    &&& s.materials@[s.spheres@[n - 1].material as int] == (Material::Metal {
        albedo: Rgb { r: 45875, g: 39322, b: 32768 },
        fuzz: 0,
    })
}

/// What the built cover scene satisfies: the fixed ground sphere first,
/// every later sphere a small grid sphere or a large one, every material of
/// an admitted kind, and the three large spheres at the end of the list.
pub open spec fn cover_scene_ok(s: &Scene) -> bool {
    &&& s.spheres@.len() >= 4
    &&& s.materials@[0] == (Material::Lambertian { albedo: Rgb { r: 32768, g: 32768, b: 32768 } })
    &&& s.spheres@[0] == (Sphere {
        center: Vec3 { x: 0, y: -65536000i64, z: -65536i64 },
        radius: 65536000,
        material: 0,
    })
    &&& forall|i: int| 1 <= i < s.spheres@.len() ==> cover_body_sphere(#[trigger] s.spheres@[i])
    &&& forall|j: int| 0 <= j < s.materials@.len() ==> cover_material(#[trigger] s.materials@[j])
    &&& cover_big_three_at_end(s)
}

/// The cover scene: a grid of small randomly placed and randomly colored
/// spheres around three large ones, over a huge ground sphere.
pub fn cover_scene(rng: &mut Rng, aspect_ratio: i64) -> (r: (Scene, Camera))
    requires
        1 <= aspect_ratio <= 524288,
    ensures
        scene_wf(&r.0),
        camera_wf(r.1@),
        cover_scene_ok(&r.0),
{
    let mut scene: Scene = Scene::new();

    // Ground.
    let ground = scene.add_material(Material::lambertian(Rgb::gray(32768)));
    let _ok0 = scene.add_sphere(Vec3::new(0, -65536000, -65536), 65536000, ground);

    let mut a: i64 = -11;
    while a <= 11
        invariant
            scene_wf(&scene),
            scene.spheres@.len() >= 1,
            scene.materials@.len() >= 1,
            scene.materials@[0] == (Material::Lambertian {
                albedo: Rgb { r: 32768, g: 32768, b: 32768 },
            }),
            scene.spheres@[0] == (Sphere {
                center: Vec3 { x: 0, y: -65536000i64, z: -65536i64 },
                radius: 65536000,
                material: 0,
            }),
            forall|i: int|
                1 <= i < scene.spheres@.len() ==> cover_body_sphere(#[trigger] scene.spheres@[i]),
            forall|j: int|
                0 <= j < scene.materials@.len() ==> cover_material(#[trigger] scene.materials@[j]),
            a > -11 ==> cover_big_three_at_end(&scene),
            -11 <= a <= 12,
        decreases 12 - a,
    {
        let mut b: i64 = -11;
        while b <= 11
            invariant
                scene_wf(&scene),
                scene.spheres@.len() >= 1,
                scene.materials@.len() >= 1,
                scene.materials@[0] == (Material::Lambertian {
                    albedo: Rgb { r: 32768, g: 32768, b: 32768 },
                }),
                scene.spheres@[0] == (Sphere {
                    center: Vec3 { x: 0, y: -65536000i64, z: -65536i64 },
                    radius: 65536000,
                    material: 0,
                }),
                forall|i: int|
                    1 <= i < scene.spheres@.len() ==> cover_body_sphere(
                        #[trigger] scene.spheres@[i],
                    ),
                forall|j: int|
                    0 <= j < scene.materials@.len() ==> cover_material(
                        #[trigger] scene.materials@[j],
                    ),
                -11 <= a <= 11,
                -11 <= b <= 12,
            decreases 12 - b,
        {
            let choose_material: i64 = rng.random_float();
            let jx: i64 = rng.random_float();
            let jz: i64 = rng.random_float();
            proof {
                lemma_unit_mul_range(58982, jx as int);
                lemma_unit_mul_range(58982, jz as int);
            }
            let center = Vec3::new(
                a * 65536 + fx_mul(58982, jx),
                13107,
                b * 65536 + fx_mul(58982, jz),
            );
            // Keep the neighborhood of the large metal sphere clear.
            let gap = center.sub(&Vec3::new(262144, 13107, 0)).length();
            if gap > 58982 {
                let material: Material = if choose_material < 52429 {
                    let c1 = Rgb::random(rng);
                    let c2 = Rgb::random(rng);
                    Material::lambertian(c1.attenuate(&c2))
                } else if choose_material < 62259 {
                    let albedo = Rgb::random_in_range(rng, 32768, 65536);
                    let fuzz: i64 = rng.random_float();
                    Material::metal(albedo, fuzz)
                } else {
                    Material::dielectric(98304)
                };
                let idx = scene.add_material(material);
                let _okm = scene.add_sphere(center, 13107, idx);
            }
            b = b + 1;
        }

        let glass = scene.add_material(Material::dielectric(98304));
        let _ok1 = scene.add_sphere(Vec3::new(0, 65536, 0), 65536, glass);

        let brown = scene.add_material(Material::lambertian(Rgb::new(26214, 13107, 6554)));
        let _ok2 = scene.add_sphere(Vec3::new(-262144, 65536, 0), 65536, brown);

        let steel = scene.add_material(Material::metal(Rgb::new(45875, 39322, 32768), 0));
        let _ok3 = scene.add_sphere(Vec3::new(262144, 65536, 0), 65536, steel);

        a = a + 1;
    }

    let camera = Camera::new(
        CameraParams {
            origin: Vec3::new(851968, 131072, 196608),
            look_at: Vec3::new(0, 0, 0),
            up: Vec3::new(0, 65536, 0),
            aspect_ratio,
            tan_half_fov_y: 11556,
            aperture: 6554,
            focus_distance: 655360,
        },
    );
    (scene, camera)
}

} // verus!

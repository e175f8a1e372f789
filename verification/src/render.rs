//! The recursive Monte Carlo radiance estimator and the per-pixel render
//! driver.

use vstd::prelude::*;

use crate::algebra::{ray_wf, spec_v_add, spec_v_norm, v_bounded, Ray, RayV, V3i};
use crate::camera::{camera_wf, spec_camera_ray, Camera, CameraV};
use crate::color::{rgb_wf, spec_quantize, Rgb, Rgb8};
use crate::fixed::{
    div_trunc, fx_mul, lemma_abs_mul_bound, lemma_tdiv_bound, lemma_tdiv_sign, spec_mul,
    spec_sqrt, tdiv, SCALE, T_MAX,
};
use crate::sampler::Rng;
use crate::scene::{scene_wf, spec_scene_hit, Scene, Sphere, EPSILON};

verus! {

/// The sky: a vertical blend from white at the bottom to light blue at the
/// top, driven by the normalized ray direction.
pub open spec fn spec_background(r: RayV) -> V3i {
    let unit = spec_v_norm(r.direction);
    let t = tdiv(unit.y + 65536, 2);
    V3i {
        x: spec_mul(65536 - t, 65536) + spec_mul(t, 32768),
        y: spec_mul(65536 - t, 65536) + spec_mul(t, 45875),
        z: spec_mul(65536 - t, 65536) + spec_mul(t, 65536),
    }
}

/// The background color for a ray that escapes the scene.
pub fn background_color(ray: &Ray) -> (c: Rgb)
    requires
        v_bounded(ray@.direction, 0x4000000000000000),
    ensures
        c@ == spec_background(ray@),
        rgb_wf(c@),
    {
    let unit = ray.direction.normalized();
    let yy: i64 = unit.y;
    let t: i64 = div_trunc((yy as i128) + 65536, 2) as i64;
    let w: i64 = SCALE - t;
    proof {
        lemma_blend_channel(t as int, 32768);
        lemma_blend_channel(t as int, 45875);
        lemma_blend_channel(t as int, 65536);
    }
    let r: i64 = fx_mul(w, SCALE) + fx_mul(t, 32768);
    let g: i64 = fx_mul(w, SCALE) + fx_mul(t, 45875);
    let b: i64 = fx_mul(w, SCALE) + fx_mul(t, 65536);
    Rgb { r, g, b }
}

/// One blended channel stays in the unit interval.
proof fn lemma_blend_channel(t: int, ch: int)
    requires
        0 <= t <= 65536,
        0 <= ch <= 65536,
    ensures
        0 <= spec_mul(65536 - t, 65536) + spec_mul(t, ch) <= 65536,
        -i64::MAX <= spec_mul(65536 - t, 65536) <= i64::MAX,
        -i64::MAX <= spec_mul(t, ch) <= i64::MAX,
{
    lemma_abs_mul_bound(65536 - t, 65536, 65536, 65536);
    lemma_tdiv_bound((65536 - t) * 65536, 65536, 65536 - t);
    assert((65536 - t) * 65536 >= 0) by (nonlinear_arith)
        requires
            t <= 65536;
    lemma_tdiv_sign((65536 - t) * 65536, 65536);
    lemma_abs_mul_bound(t, ch, 65536, 65536);
    assert(-(65536 * t) <= t * ch <= 65536 * t) by (nonlinear_arith)
        requires
            0 <= t,
            0 <= ch <= 65536;
    lemma_tdiv_bound(t * ch, 65536, t);
    assert(t * ch >= 0) by (nonlinear_arith)
        requires
            t >= 0,
            ch >= 0;
    lemma_tdiv_sign(t * ch, 65536);
}

/// Estimate the radiance arriving along one ray: black once the bounce
/// budget is exhausted; otherwise the scattered radiance attenuated by the
/// struck material, or the background gradient where nothing is hit.
pub fn ray_color(ray: &Ray, scene: &Scene, rng: &mut Rng, depth: u32) -> (c: Rgb)
    requires
        scene_wf(scene),
        ray_wf(ray@),
    ensures
        sample_outcome_ok(scene.spheres@, ray@, depth as int, c@),
        rgb_wf(c@),
    decreases depth,
{
    if depth == 0 {
        return Rgb::black();
    }
    match scene.hit(ray) {
        Some(hit) => {
            let mat = scene.materials[hit.material];
            match mat.scatter(ray, &hit, rng) {
                None => Rgb::black(),
                Some((attenuation, scattered)) => {
                    let bounced = ray_color(&scattered, scene, rng, depth - 1);
                    proof {
                        if depth == 1 {
                            lemma_attenuated_black(attenuation@);
                        }
                    }
                    attenuation.attenuate(&bounced)
                },
            }
        },
        None => background_color(ray),
    }
}

/// What the integrator guarantees of any estimate `c` it can return for the
/// ray `r` at the given bounce budget: a unit-interval color; black on an
/// exhausted budget; the exact background where the scene is missed; and
/// black where the last allowed bounce strikes a surface.
pub open spec fn sample_outcome_ok(spheres: Seq<Sphere>, r: RayV, depth: int, c: V3i) -> bool {
    &&& rgb_wf(c)
    &&& depth == 0 ==> c == (V3i { x: 0, y: 0, z: 0 })
    &&& depth > 0 && spec_scene_hit(spheres, r, EPSILON as int, T_MAX as int) is None ==> c
        == spec_background(r)
    &&& depth == 1 && spec_scene_hit(spheres, r, EPSILON as int, T_MAX as int) is Some ==> c == (
    V3i { x: 0, y: 0, z: 0 })
}

/// Black absorbs every attenuation: filtering black gives black.
proof fn lemma_attenuated_black(a: V3i)
    ensures
        crate::algebra::spec_v_mul(a, (V3i { x: 0, y: 0, z: 0 })) == (V3i { x: 0, y: 0, z: 0 }),
{
    assert(a.x * 0 == 0) by (nonlinear_arith);
    assert(a.y * 0 == 0) by (nonlinear_arith);
    assert(a.z * 0 == 0) by (nonlinear_arith);
    vstd::arithmetic::div_mod::lemma_div_of0(65536);
}

/// The finished byte triple for an accumulated pixel: the per-sample average,
/// gamma-corrected and quantized.
pub open spec fn spec_finish_pixel(sum: V3i, n: int) -> Rgb8 {
    Rgb8 {
        r: spec_quantize(spec_sqrt(tdiv(sum.x, n))) as u8,
        g: spec_quantize(spec_sqrt(tdiv(sum.y, n))) as u8,
        b: spec_quantize(spec_sqrt(tdiv(sum.z, n))) as u8,
    }
}

/// Average the accumulated radiance of a pixel over its sample count, apply
/// gamma correction, and quantize to bytes.
pub fn finish_pixel(sum: &Rgb, samples: u32) -> (px: Rgb8)
    requires
        1 <= samples,
        0 <= sum@.x <= samples * 65536,
        0 <= sum@.y <= samples * 65536,
        0 <= sum@.z <= samples * 65536,
    ensures
        px == spec_finish_pixel(sum@, samples as int),
    {
    proof {
        lemma_tdiv_bound(sum@.x, samples as int, 65536);
        lemma_tdiv_bound(sum@.y, samples as int, 65536);
        lemma_tdiv_bound(sum@.z, samples as int, 65536);
        lemma_tdiv_sign(sum@.x, samples as int);
        lemma_tdiv_sign(sum@.y, samples as int);
        lemma_tdiv_sign(sum@.z, samples as int);
    }
    let avg: Rgb = sum.divided_by(samples);
    let gamma: Rgb = avg.gamma_corrected();
    gamma.quantized()
}

/// The viewport coordinate pixel index `i` of `n` takes for a jitter draw
/// `j` in [0, 1): the fixed-point quotient `(i + j) / n`.
pub open spec fn spec_pixel_coord(i: int, n: int, j: int) -> int {
    tdiv(i * 65536 + j, n)
}

/// The vertical viewport coordinate for pixel row `i` of `n`: flipped, so
/// that row zero is the top of the image.
pub open spec fn spec_pixel_v(i: int, n: int, j: int) -> int {
    65536 - tdiv(i * 65536 + j, n)
}

/// A primary ray pixel `(col, row)` can receive: the camera's ray for some
/// jitter pair inside this pixel's sub-pixel box and some lens-disk sample.
pub open spec fn admissible_primary_ray(
    cam: CameraV,
    col: int,
    row: int,
    width: int,
    height: int,
    r: RayV,
) -> bool {
    exists|du: int, dv: int, d: V3i|
        0 <= du < 65536 && 0 <= dv < 65536 && v_bounded(d, 65536) && d.z == 0 && r
            == #[trigger] spec_camera_ray(
            cam,
            spec_pixel_coord(col, width, du),
            spec_pixel_v(row, height, dv),
            d,
        )
}

/// Componentwise sum of a sequence of colors.
pub open spec fn spec_color_sum(s: Seq<V3i>) -> V3i
    decreases s.len(),
{
    if s.len() == 0 {
        V3i { x: 0, y: 0, z: 0 }
    } else {
        spec_v_add(spec_color_sum(s.drop_last()), s.last())
    }
}

/// Everything a finished pixel estimate satisfies: it is the finished
/// average of `samples` sample colors, each returned by the integrator for
/// an admissible jittered primary ray of this pixel and therefore obeying
/// the integrator's per-outcome guarantees for that ray.
pub open spec fn pixel_estimate_ok(
    spheres: Seq<Sphere>,
    cam: CameraV,
    col: int,
    row: int,
    width: int,
    height: int,
    samples: int,
    depth: int,
    px: Rgb8,
) -> bool {
    exists|rays: Seq<RayV>, cs: Seq<V3i>|
        #![trigger rays.len(), cs.len()]
        {
            &&& rays.len() == samples
            &&& cs.len() == samples
            &&& forall|i: int|
                0 <= i < samples ==> admissible_primary_ray(
                    cam,
                    col,
                    row,
                    width,
                    height,
                    #[trigger] rays[i],
                ) && sample_outcome_ok(spheres, rays[i], depth, cs[i])
            &&& px == spec_finish_pixel(spec_color_sum(cs), samples)
        }
}

/// Estimate one pixel: average `samples` jittered primary-ray estimates and
/// finish them.
pub fn render_pixel(
    scene: &Scene,
    camera: &Camera,
    rng: &mut Rng,
    col: u32,
    row: u32,
    width: u32,
    height: u32,
    samples: u32,
    depth: u32,
) -> (px: Rgb8)
    requires
        scene_wf(scene),
        camera_wf(camera@),
        1 <= width,
        1 <= height,
        col < width,
        row < height,
        1 <= samples <= 65536,
    ensures
        pixel_estimate_ok(
            scene.spheres@,
            camera@,
            col as int,
            row as int,
            width as int,
            height as int,
            samples as int,
            depth as int,
            px,
        ),
        depth == 0 ==> px == spec_finish_pixel((V3i { x: 0, y: 0, z: 0 }), samples as int),
{
    let mut sum: Rgb = Rgb::black();
    let mut s: u32 = 0;
    let ghost mut rays: Seq<RayV> = Seq::empty();
    let ghost mut cs: Seq<V3i> = Seq::empty();
    while s < samples
        invariant
            scene_wf(scene),
            camera_wf(camera@),
            1 <= width,
            1 <= height,
            col < width,
            row < height,
            1 <= samples <= 65536,
            s <= samples,
            0 <= sum@.x <= s * 65536,
            0 <= sum@.y <= s * 65536,
            0 <= sum@.z <= s * 65536,
            rays.len() == s as int,
            cs.len() == s as int,
            sum@ == spec_color_sum(cs),
            depth == 0 ==> sum@ == (V3i { x: 0, y: 0, z: 0 }),
            forall|i: int|
                0 <= i < s ==> admissible_primary_ray(
                    camera@,
                    col as int,
                    row as int,
                    width as int,
                    height as int,
                    #[trigger] rays[i],
                ) && sample_outcome_ok(scene.spheres@, rays[i], depth as int, cs[i]),
        decreases samples - s,
    {
        let du: i64 = rng.random_float();
        let dv: i64 = rng.random_float();
        proof {
            lemma_tdiv_sign((col as int) * 65536 + du, width as int);
            lemma_tdiv_bound((col as int) * 65536 + du, width as int, 65536);
            lemma_tdiv_sign((row as int) * 65536 + dv, height as int);
            lemma_tdiv_bound((row as int) * 65536 + dv, height as int, 65536);
        }
        let ucoord: i64 = div_trunc((col as i128) * 65536 + (du as i128), width as i128) as i64;
        let vq: i64 = div_trunc((row as i128) * 65536 + (dv as i128), height as i128) as i64;
        let vcoord: i64 = SCALE - vq;
        let ray: Ray = camera.ray(ucoord, vcoord, rng);
        proof {
            let d = choose|d: V3i|
                v_bounded(d, SCALE as int) && d.z == 0 && ray@ == spec_camera_ray(
                    camera@,
                    ucoord as int,
                    vcoord as int,
                    d,
                );
            assert(ucoord as int == spec_pixel_coord(col as int, width as int, du as int));
            assert(vcoord as int == spec_pixel_v(row as int, height as int, dv as int));
            assert(ray@ == spec_camera_ray(
                camera@,
                spec_pixel_coord(col as int, width as int, du as int),
                spec_pixel_v(row as int, height as int, dv as int),
                d,
            ));
            assert(admissible_primary_ray(
                camera@,
                col as int,
                row as int,
                width as int,
                height as int,
                ray@,
            ));
        }
        let c: Rgb = ray_color(&ray, scene, rng, depth);
        proof {
            assert((s + 1) * 65536 == s * 65536 + 65536) by (nonlinear_arith);
            assert(cs.push(c@).drop_last() =~= cs);
            rays = rays.push(ray@);
            cs = cs.push(c@);
        }
        sum = sum.add(&c);
        s = s + 1;
    }
    let px: Rgb8 = finish_pixel(&sum, samples);
    proof {
        assert(px == spec_finish_pixel(spec_color_sum(cs), samples as int));
        assert(pixel_estimate_ok(
            scene.spheres@,
            camera@,
            col as int,
            row as int,
            width as int,
            height as int,
            samples as int,
            depth as int,
            px,
        ));
    }
    px
}

/// Render a whole image: every pixel independently estimated with `samples`
/// jittered rays and `depth` bounces, written row-major, with the camera's
/// vertical coordinate flipped so that row zero is the top of the image.
/// Every written pixel is a finished estimate obeying the integrator's
/// guarantees for this pixel's admissible rays.
pub fn render_scene(
    scene: &Scene,
    camera: &Camera,
    rng: &mut Rng,
    depth: u32,
    samples: u32,
    width: u32,
    height: u32,
) -> (img: Vec<Rgb8>)
    requires
        scene_wf(scene),
        camera_wf(camera@),
        1 <= width,
        1 <= height,
        (width as int) * (height as int) <= 0x10000000,
        1 <= samples <= 65536,
    ensures
        img@.len() == (width as int) * (height as int),
        forall|i: int|
            0 <= i < img@.len() ==> pixel_estimate_ok(
                scene.spheres@,
                camera@,
                i % (width as int),
                i / (width as int),
                width as int,
                height as int,
                samples as int,
                depth as int,
                #[trigger] img@[i],
            ),
        depth == 0 ==> forall|i: int|
            0 <= i < img@.len() ==> #[trigger] img@[i] == spec_finish_pixel(
                (V3i { x: 0, y: 0, z: 0 }),
                samples as int,
            ),
{
    let mut img: Vec<Rgb8> = Vec::new();
    let mut row: u32 = 0;
    proof {
        assert((width as int) * (height as int) >= 0) by (nonlinear_arith);
    }
    while row < height
        invariant
            scene_wf(scene),
            camera_wf(camera@),
            1 <= width,
            1 <= height,
            (width as int) * (height as int) <= 0x10000000,
            1 <= samples <= 65536,
            row <= height,
            img@.len() == (row as int) * (width as int),
            forall|i: int|
                0 <= i < img@.len() ==> pixel_estimate_ok(
                    scene.spheres@,
                    camera@,
                    i % (width as int),
                    i / (width as int),
                    width as int,
                    height as int,
                    samples as int,
                    depth as int,
                    #[trigger] img@[i],
                ),
            depth == 0 ==> forall|i: int|
                0 <= i < img@.len() ==> #[trigger] img@[i] == spec_finish_pixel(
                    (V3i { x: 0, y: 0, z: 0 }),
                    samples as int,
                ),
        decreases height - row,
    {
        let mut col: u32 = 0;
        proof {
            lemma_row_area(row as int, width as int, height as int);
        }
        while col < width
            invariant
                scene_wf(scene),
                camera_wf(camera@),
                1 <= width,
                1 <= height,
                (width as int) * (height as int) <= 0x10000000,
                1 <= samples <= 65536,
                row < height,
                col <= width,
                img@.len() == (row as int) * (width as int) + col,
                (row as int) * (width as int) + width <= 0x10000000,
                forall|i: int|
                    0 <= i < img@.len() ==> pixel_estimate_ok(
                        scene.spheres@,
                        camera@,
                        i % (width as int),
                        i / (width as int),
                        width as int,
                        height as int,
                        samples as int,
                        depth as int,
                        #[trigger] img@[i],
                    ),
                depth == 0 ==> forall|i: int|
                    0 <= i < img@.len() ==> #[trigger] img@[i] == spec_finish_pixel(
                        (V3i { x: 0, y: 0, z: 0 }),
                        samples as int,
                    ),
            decreases width - col,
        {
            let px: Rgb8 = render_pixel(scene, camera, rng, col, row, width, height, samples, depth);
            proof {
                vstd::arithmetic::div_mod::lemma_fundamental_div_mod_converse(
                    (row as int) * (width as int) + col,
                    width as int,
                    row as int,
                    col as int,
                );
            }
            img.push(px);
            col = col + 1;
        }
        proof {
            assert((row as int + 1) * (width as int) == (row as int) * (width as int) + (
            width as int)) by (nonlinear_arith);
        }
        row = row + 1;
    }
    proof {
        assert((height as int) * (width as int) == (width as int) * (height as int))
            by (nonlinear_arith);
    }
    img
}

/// A full row more still fits under the pixel budget.
proof fn lemma_row_area(row: int, width: int, height: int)
    by (nonlinear_arith)
    requires
        0 <= row < height,
        1 <= width,
        width * height <= 0x10000000,
    ensures
        row * width + width <= 0x10000000,
        row * width >= 0,
{
}

} // verus!

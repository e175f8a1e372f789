//! The virtual camera: an orthonormal viewing basis built once, and a primary
//! ray for every normalized viewport coordinate, with an optional lens
//! offset for depth of field.

use vstd::prelude::*;

use crate::algebra::{
    ray_wf, spec_cross, spec_v_add, spec_v_norm, spec_v_scale, spec_v_sub, v_bounded, Point3,
    Ray, RayV, V3i, Vec3,
};
use crate::fixed::{
    div_trunc, fx_mul, lemma_abs_mul_bound, lemma_tdiv_bound, lemma_tdiv_sign, spec_mul, tdiv,
    SCALE,
};
use crate::sampler::Rng;

verus! {

/// Mathematical image of the camera parameters.
pub ghost struct ParamsV {
    pub origin: V3i,
    pub look_at: V3i,
    pub up: V3i,
    pub aspect_ratio: int,
    pub tan_half_fov_y: int,
    pub aperture: int,
    pub focus_distance: int,
}

/// What a camera is built from.  The vertical field of view enters as the
/// tangent of its half angle, the one transcendental quantity, which the
/// caller computes.
pub struct CameraParams {
    pub origin: Point3,
    pub look_at: Point3,
    pub up: Vec3,
    /// Width over height of the viewport.
    pub aspect_ratio: i64,
    /// Tangent of half the vertical field of view.
    pub tan_half_fov_y: i64,
    /// Aperture and focus distance control the depth-of-field effect.
    pub aperture: i64,
    pub focus_distance: i64,
}

impl View for CameraParams {
    type V = ParamsV;

    open spec fn view(&self) -> ParamsV {
        ParamsV {
            origin: self.origin@,
            look_at: self.look_at@,
            up: self.up@,
            aspect_ratio: self.aspect_ratio as int,
            tan_half_fov_y: self.tan_half_fov_y as int,
            aperture: self.aperture as int,
            focus_distance: self.focus_distance as int,
        }
    }
}

/// The parameter ranges the fixed-point camera admits.
pub open spec fn params_wf(p: ParamsV) -> bool {
    &&& v_bounded(p.origin, 0x10000000000)
    &&& v_bounded(p.look_at, 0x10000000000)
    &&& v_bounded(p.up, 0x80000000)
    &&& 0 <= p.tan_half_fov_y <= 524288
    &&& 1 <= p.aspect_ratio <= 524288
    &&& 0 <= p.aperture <= 131072
    &&& 1 <= p.focus_distance <= 4194304
}

/// Mathematical image of a camera.
pub ghost struct CameraV {
    pub origin: V3i,
    pub horizontal: V3i,
    pub vertical: V3i,
    pub lower_left_corner: V3i,
    pub u: V3i,
    pub v: V3i,
    pub w: V3i,
    pub lens_radius: int,
}

/// The camera built from the given parameters: an orthonormal basis aimed
/// from the origin at the target, and the viewport plane at the focus
/// distance.
pub open spec fn spec_camera(p: ParamsV) -> CameraV {
    let height = 2 * p.tan_half_fov_y;
    let width = spec_mul(height, p.aspect_ratio);
    let w = spec_v_norm(spec_v_sub(p.origin, p.look_at));
    let u = spec_v_norm(spec_cross(p.up, w));
    let v = spec_cross(w, u);
    let horizontal = spec_v_scale(spec_mul(p.focus_distance, width), u);
    let vertical = spec_v_scale(spec_mul(p.focus_distance, height), v);
    let lower_left_corner = spec_v_sub(
        spec_v_sub(spec_v_sub(p.origin, spec_v_scale(32768, horizontal)), spec_v_scale(32768, vertical)),
        spec_v_scale(p.focus_distance, w),
    );
    CameraV {
        origin: p.origin,
        horizontal,
        vertical,
        lower_left_corner,
        u,
        v,
        w,
        lens_radius: tdiv(p.aperture, 2),
    }
}

/// The bounds every built camera keeps, including the cancellation between
/// the lower-left corner and the origin that keeps ray directions small.
pub open spec fn camera_wf(c: CameraV) -> bool {
    &&& v_bounded(c.origin, 0x10000000000)
    &&& v_bounded(c.horizontal, 0x20000000)
    &&& v_bounded(c.vertical, 0x8000000)
    &&& v_bounded(c.lower_left_corner, 0x18000000000)
    &&& v_bounded(spec_v_sub(c.lower_left_corner, c.origin), 0x30000000)
    &&& v_bounded(c.u, 65536)
    &&& v_bounded(c.v, 131072)
    &&& 0 <= c.lens_radius <= 65536
}

/// The primary ray for viewport coordinates `(s, t)` and the given lens-disk
/// sample.
pub open spec fn spec_camera_ray(c: CameraV, s: int, t: int, disk: V3i) -> RayV {
    let rd = spec_v_scale(c.lens_radius, disk);
    let offset = spec_v_add(spec_v_scale(rd.x, c.u), spec_v_scale(rd.y, c.v));
    let origin = spec_v_add(c.origin, offset);
    let direction = spec_v_sub(
        spec_v_sub(
            spec_v_add(
                spec_v_add(c.lower_left_corner, spec_v_scale(s, c.horizontal)),
                spec_v_scale(t, c.vertical),
            ),
            c.origin,
        ),
        offset,
    );
    RayV { origin, direction }
}

/// The camera.  The fields are the precomputed viewing basis; build them
/// through `Camera::new`.
pub struct Camera {
    pub origin: Point3,
    pub horizontal: Vec3,
    pub vertical: Vec3,
    pub lower_left_corner: Point3,
    pub u: Vec3,
    pub v: Vec3,
    pub w: Vec3,
    pub lens_radius: i64,
}

impl View for Camera {
    type V = CameraV;

    open spec fn view(&self) -> CameraV {
        CameraV {
            origin: self.origin@,
            horizontal: self.horizontal@,
            vertical: self.vertical@,
            lower_left_corner: self.lower_left_corner@,
            u: self.u@,
            v: self.v@,
            w: self.w@,
            lens_radius: self.lens_radius as int,
        }
    }
}

impl Camera {
    /// Build a camera from its parameters.
    pub fn new(params: CameraParams) -> (c: Camera)
        requires
            params_wf(params@),
        ensures
            c@ == spec_camera(params@),
            camera_wf(c@),
    {
        let height: i64 = 2 * params.tan_half_fov_y;
        proof {
            lemma_abs_mul_bound(height as int, params@.aspect_ratio, 1048576, 524288);
            lemma_tdiv_bound(height as int * params@.aspect_ratio, 65536, 8388608);
        }
        let width: i64 = fx_mul(height, params.aspect_ratio);
        let w: Vec3 = params.origin.sub(&params.look_at).normalized();
        let u: Vec3 = params.up.cross(&w).normalized();
        let v: Vec3 = w.cross(&u);
        proof {
            lemma_abs_mul_bound(w@.y, u@.z, 65536, 65536);
            lemma_abs_mul_bound(w@.z, u@.y, 65536, 65536);
            lemma_abs_mul_bound(w@.z, u@.x, 65536, 65536);
            lemma_abs_mul_bound(w@.x, u@.z, 65536, 65536);
            lemma_abs_mul_bound(w@.x, u@.y, 65536, 65536);
            lemma_abs_mul_bound(w@.y, u@.x, 65536, 65536);
            lemma_tdiv_bound(w@.y * u@.z - w@.z * u@.y, 65536, 131072);
            lemma_tdiv_bound(w@.z * u@.x - w@.x * u@.z, 65536, 131072);
            lemma_tdiv_bound(w@.x * u@.y - w@.y * u@.x, 65536, 131072);
            lemma_abs_mul_bound(params@.focus_distance, width as int, 4194304, 8388608);
            lemma_tdiv_bound(params@.focus_distance * width as int, 65536, 0x20000000);
            lemma_abs_mul_bound(params@.focus_distance, height as int, 4194304, 1048576);
            lemma_tdiv_bound(params@.focus_distance * height as int, 65536, 0x4000000);
        }
        let fw: i64 = fx_mul(params.focus_distance, width);
        let fh: i64 = fx_mul(params.focus_distance, height);
        proof {
            lemma_scale_bound(fw as int, u@, 0x20000000, 65536, 0x20000000);
            lemma_scale_bound(fh as int, v@, 0x4000000, 131072, 0x8000000);
        }
        let horizontal: Vec3 = u.scale(fw);
        let vertical: Vec3 = v.scale(fh);
        proof {
            lemma_scale_bound(32768, horizontal@, 32768, 0x20000000, 0x10000000);
            lemma_scale_bound(32768, vertical@, 32768, 0x8000000, 0x4000000);
            lemma_scale_bound(params@.focus_distance, w@, 4194304, 65536, 4194304);
        }
        let half_h: Vec3 = horizontal.scale(32768);
        let half_v: Vec3 = vertical.scale(32768);
        let fwv: Vec3 = w.scale(params.focus_distance);
        let lower_left_corner: Vec3 = params.origin.sub(&half_h).sub(&half_v).sub(&fwv);
        proof {
            lemma_tdiv_sign(params@.aperture, 2);
            lemma_tdiv_bound(params@.aperture, 2, 65536);
        }
        let lr: i128 = div_trunc(params.aperture as i128, 2);
        Camera {
            origin: params.origin,
            horizontal,
            vertical,
            lower_left_corner,
            u,
            v,
            w,
            lens_radius: lr as i64,
        }
    }

    /// A world-space primary ray from the eye of the camera towards the
    /// viewport coordinates `(s, t)` in [0, 1]; the sampler supplies the
    /// lens-disk jitter.  With a zero lens radius the ray is a deterministic
    /// function of the camera and the coordinates.
    pub fn ray(&self, s: i64, t: i64, rng: &mut Rng) -> (r: Ray)
        requires
            camera_wf(self@),
            0 <= s <= SCALE,
            0 <= t <= SCALE,
        ensures
            ray_wf(r@),
            exists|d: V3i|
                v_bounded(d, SCALE as int) && d.z == 0 && r@ == #[trigger] spec_camera_ray(
                    self@,
                    s as int,
                    t as int,
                    d,
                ),
            self@.lens_radius == 0 ==> r@ == spec_camera_ray(
                self@,
                s as int,
                t as int,
                (V3i { x: 0, y: 0, z: 0 }),
            ),
    {
        let disk: Vec3 = rng.sample_disk();
        proof {
            lemma_scale_bound(self@.lens_radius, disk@, 65536, 65536, 65536);
        }
        let rd: Vec3 = disk.scale(self.lens_radius);
        proof {
            lemma_scale_bound(rd@.x, self@.u, 65536, 65536, 65536);
            lemma_scale_bound(rd@.y, self@.v, 65536, 131072, 131072);
        }
        let offset: Vec3 = self.u.scale(rd.x).add(&self.v.scale(rd.y));
        let origin: Vec3 = self.origin.add(&offset);
        proof {
            lemma_scale_bound(s as int, self@.horizontal, 65536, 0x20000000, 0x20000000);
            lemma_scale_bound(t as int, self@.vertical, 65536, 0x8000000, 0x8000000);
        }
        let direction: Vec3 = self.lower_left_corner.add(&self.horizontal.scale(s)).add(
            &self.vertical.scale(t),
        ).sub(&self.origin).sub(&offset);
        let r: Ray = Ray { origin, direction };
        proof {
            assert(r@ == spec_camera_ray(self@, s as int, t as int, disk@));
            if self@.lens_radius == 0 {
                lemma_ray_zero_lens(self@, s as int, t as int, disk@);
            }
        }
        r
    }
}

/// Componentwise bound for a scaled vector: |t| <= ct and |v_i| <= cv give
/// |t v_i / SCALE| <= m whenever ct * cv <= SCALE * m.
proof fn lemma_scale_bound(t: int, v: V3i, ct: int, cv: int, m: int)
    requires
        0 <= ct,
        0 <= cv,
        0 <= m <= 0x7fffffffffffffff,
        -ct <= t <= ct,
        v_bounded(v, cv),
        ct * cv <= 65536 * m,
    ensures
        v_bounded(spec_v_scale(t, v), m),
        -i64::MAX <= spec_mul(t, v.x) <= i64::MAX,
        -i64::MAX <= spec_mul(t, v.y) <= i64::MAX,
        -i64::MAX <= spec_mul(t, v.z) <= i64::MAX,
{
    lemma_abs_mul_bound(t, v.x, ct, cv);
    lemma_abs_mul_bound(t, v.y, ct, cv);
    lemma_abs_mul_bound(t, v.z, ct, cv);
    lemma_tdiv_bound(t * v.x, 65536, m);
    lemma_tdiv_bound(t * v.y, 65536, m);
    lemma_tdiv_bound(t * v.z, 65536, m);
}

/// With a zero lens radius the disk sample does not matter.
proof fn lemma_ray_zero_lens(c: CameraV, s: int, t: int, disk: V3i)
    requires
        c.lens_radius == 0,
    ensures
        spec_camera_ray(c, s, t, disk) == spec_camera_ray(c, s, t, (V3i { x: 0, y: 0, z: 0 })),
{
    crate::algebra::lemma_zero_scale(disk);
    crate::algebra::lemma_zero_scale(V3i { x: 0, y: 0, z: 0 });
}

} // verus!

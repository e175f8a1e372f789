//! Geometry: spheres, hit records, and the nearest-intersection query over a
//! whole scene.

use vstd::prelude::*;

use crate::algebra::{
    pos_bounded, ray_wf, spec_at, spec_dot, spec_v_neg, spec_v_norm, spec_v_sub, v_bounded,
    Point3, Ray, RayV, V3i, Vec3,
};
use crate::fixed::{
    clamp128, div_trunc, isqrt, lemma_abs_mul_bound, lemma_isqrt_lt, lemma_tdiv_bound, spec_clamp,
    spec_mul, sqrt_i128, tdiv, POS_MAX, SCALE, T_MAX,
};
use crate::material::Material;

verus! {

/// Ray parameters closer to the origin than this are ignored, to suppress
/// self-intersection artifacts; about 0.001 in fixed point.
pub const EPSILON: i64 = 66;

/// Mathematical image of a hit record.
pub ghost struct HitV {
    pub point: V3i,
    pub normal: V3i,
    pub material: int,
    pub t: int,
    pub is_front_face: bool,
}

/// The record of the closest intersection found along a ray.
#[derive(Clone, Copy, Debug, PartialEq, Eq, Structural)]
pub struct HitRecord {
    /// Point of intersection, confined to the world's coordinate range.
    pub point: Point3,
    /// Unit-length surface normal, always oriented against the incident ray.
    pub normal: Vec3,
    /// Index of the struck object's material in the scene's arena.
    pub material: usize,
    /// The interpolation distance along the input ray that results in `point`.
    pub t: i64,
    /// True if the ray intersected the surface at its front side.
    pub is_front_face: bool,
}

impl View for HitRecord {
    type V = HitV;

    open spec fn view(&self) -> HitV {
        HitV {
            point: self.point@,
            normal: self.normal@,
            material: self.material as int,
            t: self.t as int,
            is_front_face: self.is_front_face,
        }
    }
}

/// What every returned hit record satisfies.
pub open spec fn hit_wf(h: HitV) -> bool {
    &&& pos_bounded(h.point)
    &&& v_bounded(h.normal, SCALE as int)
    &&& 0 <= h.t <= T_MAX
}

/// A sphere.
#[derive(Clone, Copy, Debug)]
pub struct Sphere {
    pub center: Point3,
    /// A negative radius is legal and results in inverted surface normals
    /// (pointing towards the center), modelling a thin hollow shell.
    pub radius: i64,
    /// Index of the sphere's material in the scene's arena.
    pub material: usize,
}

/// Center and radius within the world's coordinate range.
pub open spec fn sphere_wf(s: Sphere) -> bool {
    &&& pos_bounded(s.center@)
    &&& -POS_MAX <= s.radius <= POS_MAX
}

/// Each component forced into the world's coordinate range.
pub open spec fn spec_v_clamp_pos(v: V3i) -> V3i {
    V3i {
        x: spec_clamp(v.x, -POS_MAX as int, POS_MAX as int),
        y: spec_clamp(v.y, -POS_MAX as int, POS_MAX as int),
        z: spec_clamp(v.z, -POS_MAX as int, POS_MAX as int),
    }
}

/// The outward normal of a sphere at a surface point: the direction from the
/// center, rescaled to unit length, inverted for a negative radius.
pub open spec fn spec_outward_normal(s: Sphere, p: V3i) -> V3i {
    let raw = spec_v_norm(spec_v_sub(p, s.center@));
    if s.radius < 0 {
        spec_v_neg(raw)
    } else {
        raw
    }
}

/// The hit record a sphere produces at ray parameter `t`.
pub open spec fn spec_make_hit(s: Sphere, r: RayV, t: int) -> HitV {
    let p = spec_v_clamp_pos(spec_at(r, t));
    let outward = spec_outward_normal(s, p);
    let front = spec_dot(r.direction, outward) <= 0;
    let normal = if front {
        outward
    } else {
        spec_v_neg(outward)
    };
    HitV { point: p, normal: normal, material: s.material as int, t: t, is_front_face: front }
}

/// The nearest intersection of a ray with one sphere, with parameter in
/// `[t_min, t_max]`: the ray is intersected with the implicit quadric, the
/// smaller root is preferred, and a degenerate direction or a negative
/// discriminant yields no hit.
pub open spec fn spec_sphere_hit(s: Sphere, r: RayV, t_min: int, t_max: int) -> Option<HitV> {
    let oc = spec_v_sub(r.origin, s.center@);
    let a = spec_dot(r.direction, r.direction);
    let half_b = spec_dot(oc, r.direction);
    let c = spec_dot(oc, oc) - spec_mul(s.radius as int, s.radius as int);
    let disc = half_b * half_b - a * c;
    if a <= 0 || disc < 0 {
        None
    } else {
        let sq = isqrt(disc);
        let root1 = tdiv((-half_b - sq) * SCALE, a);
        let root2 = tdiv((-half_b + sq) * SCALE, a);
        if t_min <= root1 && root1 <= t_max {
            Some(spec_make_hit(s, r, root1))
        } else if t_min <= root2 && root2 <= t_max {
            Some(spec_make_hit(s, r, root2))
        } else {
            None
        }
    }
}

/// The ghost image of an optional hit record.
pub open spec fn opt_hit_view(h: Option<HitRecord>) -> Option<HitV> {
    match h {
        Option::None => Option::None,
        Option::Some(rec) => Option::Some(rec@),
    }
}

impl Sphere {
    /// Find and return the closest intersection point along the ray within
    /// `[t_min, t_max]`.
    #[verifier::rlimit(100)]
    pub fn bounded_hit(&self, ray: &Ray, t_min: i64, t_max: i64) -> (h: Option<HitRecord>)
        requires
            sphere_wf(*self),
            ray_wf(ray@),
            0 <= t_min,
            t_max <= T_MAX,
        ensures
            opt_hit_view(h) == spec_sphere_hit(*self, ray@, t_min as int, t_max as int),
            h matches Some(rec) ==> hit_wf(rec@) && t_min <= rec.t <= t_max && rec.material
                == self.material,
    {
        let dx: i128 = ray.direction.x as i128;
        let dy: i128 = ray.direction.y as i128;
        let dz: i128 = ray.direction.z as i128;
        let ocx: i128 = (ray.origin.x as i128) - (self.center.x as i128);
        let ocy: i128 = (ray.origin.y as i128) - (self.center.y as i128);
        let ocz: i128 = (ray.origin.z as i128) - (self.center.z as i128);
        proof {
            lemma_abs_mul_bound(dx as int, dx as int, 0x80000000, 0x80000000);
            lemma_abs_mul_bound(dy as int, dy as int, 0x80000000, 0x80000000);
            lemma_abs_mul_bound(dz as int, dz as int, 0x80000000, 0x80000000);
            lemma_tdiv_bound(
                dx as int * dx as int + dy as int * dy as int + dz as int * dz as int,
                65536,
                0xc00000000000,
            );
        }
        let a: i128 = div_trunc(dx * dx + dy * dy + dz * dz, 65536);
        if a <= 0 {
            return None;
        }
        proof {
            lemma_abs_mul_bound(ocx as int, dx as int, 0x40000000000, 0x80000000);
            lemma_abs_mul_bound(ocy as int, dy as int, 0x40000000000, 0x80000000);
            lemma_abs_mul_bound(ocz as int, dz as int, 0x40000000000, 0x80000000);
            lemma_tdiv_bound(
                ocx as int * dx as int + ocy as int * dy as int + ocz as int * dz as int,
                65536,
                0x600000000000000,
            );
            lemma_abs_mul_bound(ocx as int, ocx as int, 0x40000000000, 0x40000000000);
            lemma_abs_mul_bound(ocy as int, ocy as int, 0x40000000000, 0x40000000000);
            lemma_abs_mul_bound(ocz as int, ocz as int, 0x40000000000, 0x40000000000);
            lemma_tdiv_bound(
                ocx as int * ocx as int + ocy as int * ocy as int + ocz as int * ocz as int,
                65536,
                0x300000000000000000,
            );
            lemma_abs_mul_bound(self.radius as int, self.radius as int, 0x20000000000, 0x20000000000);
            lemma_tdiv_bound(self.radius as int * self.radius as int, 65536, 0x40000000000000000);
        }
        let half_b: i128 = div_trunc(ocx * dx + ocy * dy + ocz * dz, 65536);
        let c_dot: i128 = div_trunc(ocx * ocx + ocy * ocy + ocz * ocz, 65536);
        let r2: i128 = div_trunc((self.radius as i128) * (self.radius as i128), 65536);
        let c: i128 = c_dot - r2;
        proof {
            lemma_abs_mul_bound(half_b as int, half_b as int, 0x600000000000000, 0x600000000000000);
            lemma_abs_mul_bound(a as int, c as int, 0xc00000000000, 0x340000000000000000);
        }
        let disc: i128 = half_b * half_b - a * c;
        if disc < 0 {
            return None;
        }
        proof {
            lemma_isqrt_lt(disc as int, 0x1000000000000000);
        }
        let sq: i128 = sqrt_i128(disc);
        let num1: i128 = (-half_b - sq) * 65536;
        let num2: i128 = (-half_b + sq) * 65536;
        let root1: i128 = div_trunc(num1, a);
        let root2: i128 = div_trunc(num2, a);
        let tl: i128 = t_min as i128;
        let th: i128 = t_max as i128;
        let root: i128 = if tl <= root1 && root1 <= th {
            root1
        } else if tl <= root2 && root2 <= th {
            root2
        } else {
            return None;
        };
        let t: i64 = root as i64;
        proof {
            lemma_abs_mul_bound(t as int, dx as int, 0x1000000000, 0x80000000);
            lemma_abs_mul_bound(t as int, dy as int, 0x1000000000, 0x80000000);
            lemma_abs_mul_bound(t as int, dz as int, 0x1000000000, 0x80000000);
        }
        let px: i64 = clamp128(
            (ray.origin.x as i128) + div_trunc((t as i128) * dx, 65536),
            -POS_MAX,
            POS_MAX,
        );
        let py: i64 = clamp128(
            (ray.origin.y as i128) + div_trunc((t as i128) * dy, 65536),
            -POS_MAX,
            POS_MAX,
        );
        let pz: i64 = clamp128(
            (ray.origin.z as i128) + div_trunc((t as i128) * dz, 65536),
            -POS_MAX,
            POS_MAX,
        );
        let p: Point3 = Vec3 { x: px, y: py, z: pz };
        proof {
            assert(p@ == spec_v_clamp_pos(spec_at(ray@, t as int)));
        }
        let u: Vec3 = p.sub(&self.center);
        let outward_raw: Vec3 = u.normalized();
        let outward: Vec3 = if self.radius < 0 {
            outward_raw.neg()
        } else {
            outward_raw
        };
        proof {
            assert(outward@ == spec_outward_normal(*self, p@));
            crate::algebra::lemma_dot_bound(ray@.direction, outward@, 0x80000000, 65536, 0x180000000);
        }
        let d_align: i64 = ray.direction.dot(&outward);
        let front: bool = d_align <= 0;
        let normal: Vec3 = if front {
            outward
        } else {
            outward.neg()
        };
        let rec: HitRecord = HitRecord {
            point: p,
            normal: normal,
            material: self.material,
            t: t,
            is_front_face: front,
        };
        proof {
            assert(rec@ == spec_make_hit(*self, ray@, t as int));
        }
        Some(rec)
    }

    /// Find and return the closest intersection point along the ray in front
    /// of its origin.
    pub fn hit(&self, ray: &Ray) -> (h: Option<HitRecord>)
        requires
            sphere_wf(*self),
            ray_wf(ray@),
        ensures
            opt_hit_view(h) == spec_sphere_hit(*self, ray@, EPSILON as int, T_MAX as int),
            h matches Some(rec) ==> hit_wf(rec@) && EPSILON <= rec.t <= T_MAX && rec.material
                == self.material,
    {
        self.bounded_hit(ray, EPSILON, T_MAX)
    }
}

/// The sphere of radius `r` one unit down the axis from the origin.
pub open spec fn axial_sphere(r: int) -> Sphere {
    Sphere { center: Vec3 { x: 0, y: 0, z: -65536i64 }, radius: r as i64, material: 0 }
}

/// The ray from the origin aimed straight at that sphere's center.
pub open spec fn axial_ray() -> RayV {
    RayV { origin: V3i { x: 0, y: 0, z: 0 }, direction: V3i { x: 0, y: 0, z: -65536 } }
}

/// A ray aimed at the center of a sphere of radius `r` centered one unit
/// away meets it at `t = 1 - r`, up to one fixed-point unit below, and the
/// hit point is exactly `origin + t * direction`.  Radii under one half lose
/// more than one unit to the squared-radius rounding and are left out.
pub proof fn lemma_axial_hit(r: int)
    requires
        32768 <= r <= 65470,
    ensures
        spec_sphere_hit(axial_sphere(r), axial_ray(), EPSILON as int, T_MAX as int) matches Some(h)
            && 65536 - r <= h.t <= 65536 - r + 1 && h.point == (V3i { x: 0, y: 0, z: -h.t }),
{
    let s = axial_sphere(r);
    let ray = axial_ray();
    let q = tdiv(r * r, 65536);
    lemma_abs_mul_bound(r, r, 65470, 65470);
    vstd::arithmetic::div_mod::lemma_fundamental_div_mod(r * r, 65536);
    vstd::arithmetic::div_mod::lemma_remainder_upper(r * r, 65536);
    vstd::arithmetic::div_mod::lemma_remainder_lower(r * r, 65536);
    assert(r * r >= 0) by (nonlinear_arith)
        requires
            r >= 0;
    assert(65536 * q <= r * r < 65536 * q + 65536) by {
        assert(r * r == 65536 * (r * r / 65536) + (r * r) % 65536);
        assert(0 <= (r * r) % 65536 < 65536);
    }
    // The discriminant of the axial quadratic is exactly 65536 * q.
    let a = spec_dot(ray.direction, ray.direction);
    let oc = spec_v_sub(ray.origin, s.center@);
    let half_b = spec_dot(oc, ray.direction);
    let cc = spec_dot(oc, oc) - spec_mul(s.radius as int, s.radius as int);
    assert(oc == (V3i { x: 0, y: 0, z: 65536 }));
    assert((-65536) * (-65536) == 65536 * 65536) by (nonlinear_arith);
    assert(65536 * (-65536) == -(65536 * 65536)) by (nonlinear_arith);
    lemma_tdiv_int_scale(65536);
    lemma_tdiv_int_scale(-65536);
    assert(a == 65536);
    assert(half_b == -65536);
    assert(cc == 65536 - q);
    let disc = half_b * half_b - a * cc;
    assert(half_b * half_b == 65536 * 65536) by (nonlinear_arith)
        requires
            half_b == -65536;
    assert(a * cc == 65536 * 65536 - 65536 * q) by (nonlinear_arith)
        requires
            a == 65536,
            cc == 65536 - q;
    assert(disc == 65536 * q);
    // The square root of the discriminant is r or r - 1.
    let sq = isqrt(disc);
    crate::fixed::lemma_isqrt_square(r);
    crate::fixed::lemma_isqrt_le(disc, r * r);
    crate::fixed::lemma_isqrt_square(r - 1);
    assert((r - 1) * (r - 1) <= 65536 * q) by (nonlinear_arith)
        requires
            r >= 32768,
            65536 * q >= r * r - 65535;
    crate::fixed::lemma_isqrt_le((r - 1) * (r - 1), disc);
    assert(r - 1 <= sq <= r);
    // The smaller root is 65536 - sq, inside [EPSILON, T_MAX].
    lemma_tdiv_int_scale(65536 - sq);
    let root1 = tdiv((-half_b - sq) * SCALE, a);
    assert(root1 == 65536 - sq);
    let h = spec_make_hit(s, ray, root1);
    assert(spec_sphere_hit(s, ray, EPSILON as int, T_MAX as int) == Some(h));
    // The hit point is exactly the ray evaluated at the root.
    vstd::arithmetic::div_mod::lemma_div_of0(65536);
    assert(root1 * 0 == 0) by (nonlinear_arith);
    lemma_tdiv_int_scale(root1);
    assert(root1 * (-65536) == -(root1 * 65536)) by (nonlinear_arith);
    crate::fixed::lemma_tdiv_neg(root1 * 65536, 65536);
    assert(spec_at(ray, root1) == (V3i { x: 0, y: 0, z: -root1 }));
    assert(h.point == (V3i { x: 0, y: 0, z: -root1 }));
}

/// Scaling by one in fixed point is exact: `(x * 65536) / 65536 == x`.
proof fn lemma_tdiv_int_scale(x: int)
    ensures
        tdiv(x * 65536, SCALE as int) == x,
{
    if x >= 0 {
        assert(x * 65536 >= 0) by (nonlinear_arith)
            requires
                x >= 0;
        vstd::arithmetic::div_mod::lemma_div_by_multiple(x, 65536);
        assert(x * 65536 == 65536 * x) by (nonlinear_arith);
    } else {
        assert(x * 65536 < 0) by (nonlinear_arith)
            requires
                x < 0;
        assert(-(x * 65536) == (-x) * 65536) by (nonlinear_arith);
        vstd::arithmetic::div_mod::lemma_div_by_multiple(-x, 65536);
        assert((-x) * 65536 == 65536 * (-x)) by (nonlinear_arith);
    }
}

/// Hollow-shell invariant: at every point but the center itself, the outward
/// normal of a sphere with negative radius makes a strictly obtuse angle with
/// the radial direction from the center — it points inward.
pub proof fn lemma_negative_radius_inward(s: Sphere, p: V3i)
    requires
        s.radius < 0,
        p != s.center@,
    ensures
        spec_dot(spec_outward_normal(s, p), spec_v_sub(p, s.center@)) < 0,
{
    let u = spec_v_sub(p, s.center@);
    let n0 = spec_v_norm(u);
    assert(u.x != 0 || u.y != 0 || u.z != 0);
    crate::algebra::lemma_norm_radial_pos(u);
    crate::algebra::lemma_dot_neg(n0, u);
}

/// The same invariant on a produced hit record: where a negative-radius
/// sphere is struck on its front face, the recorded normal itself points
/// inward at the hit point.
pub proof fn lemma_hollow_shell_record(s: Sphere, r: RayV, t: int)
    requires
        s.radius < 0,
        spec_make_hit(s, r, t).is_front_face,
        spec_make_hit(s, r, t).point != s.center@,
    ensures
        spec_dot(
            spec_make_hit(s, r, t).normal,
            spec_v_sub(spec_make_hit(s, r, t).point, s.center@),
        ) < 0,
{
    lemma_negative_radius_inward(s, spec_make_hit(s, r, t).point);
}

/// A scene: an ordered list of spheres, and the arena of materials they
/// share by index.
pub struct Scene {
    pub spheres: Vec<Sphere>,
    pub materials: Vec<Material>,
}

/// Every sphere is well-formed and refers to a well-formed material of the
/// arena.
pub open spec fn scene_wf(s: &Scene) -> bool {
    &&& forall|i: int|
        0 <= i < s.spheres@.len() ==> sphere_wf(#[trigger] s.spheres@[i]) && s.spheres@[i].material
            < s.materials@.len()
    &&& forall|j: int|
        0 <= j < s.materials@.len() ==> crate::material::material_wf(#[trigger] s.materials@[j])
}

/// The nearest hit over a prefix of the sphere list: the classic
/// running-minimum scan, shrinking the far limit to just below the nearest
/// hit so far, so a later sphere is accepted only if it hits strictly
/// closer.
pub open spec fn spec_scene_hit(spheres: Seq<Sphere>, r: RayV, t_min: int, t_max: int) -> Option<
    HitV,
>
    decreases spheres.len(),
{
    if spheres.len() == 0 {
        Option::None
    } else {
        let prev = spec_scene_hit(spheres.drop_last(), r, t_min, t_max);
        let cur_max = match prev {
            Option::None => t_max,
            Option::Some(h) => h.t - 1,
        };
        match spec_sphere_hit(spheres.last(), r, t_min, cur_max) {
            Option::Some(h2) => Option::Some(h2),
            Option::None => prev,
        }
    }
}

impl Scene {
    /// A scene with no objects and no materials.
    pub fn new() -> (s: Scene)
        ensures
            s.spheres@.len() == 0,
            s.materials@.len() == 0,
            scene_wf(&s),
    {
        Scene { spheres: Vec::new(), materials: Vec::new() }
    }

    /// Add a material to the arena and return its index.
    pub fn add_material(&mut self, m: Material) -> (idx: usize)
        requires
            scene_wf(&*old(self)),
            crate::material::material_wf(m),
        ensures
            scene_wf(&*final(self)),
            final(self).spheres@ == old(self).spheres@,
            final(self).materials@ == old(self).materials@.push(m),
            idx as int == old(self).materials@.len(),
    {
        let idx = self.materials.len();
        self.materials.push(m);
        idx
    }

    /// Add a sphere built on a material already in the arena.
    pub fn add_sphere(&mut self, center: Point3, radius: i64, material: usize) -> (r: bool)
        requires
            scene_wf(&*old(self)),
        ensures
            scene_wf(&*final(self)),
            final(self).materials@ == old(self).materials@,
            r == (pos_bounded(center@) && -POS_MAX <= radius <= POS_MAX && (material as int)
                < old(self).materials@.len()),
            r ==> final(self).spheres@ == old(self).spheres@.push(
                (Sphere { center, radius, material }),
            ),
            !r ==> final(self).spheres@ == old(self).spheres@,
    {
        let ok_center = center.x >= -POS_MAX && center.x <= POS_MAX && center.y >= -POS_MAX
            && center.y <= POS_MAX && center.z >= -POS_MAX && center.z <= POS_MAX;
        if ok_center && radius >= -POS_MAX && radius <= POS_MAX && material < self.materials.len() {
            self.spheres.push(Sphere { center, radius, material });
            true
        } else {
            false
        }
    }

    /// Find and return the closest intersection with parameter in
    /// `[t_min, t_max]` over all objects of the scene.
    pub fn bounded_hit(&self, ray: &Ray, t_min: i64, t_max: i64) -> (h: Option<HitRecord>)
        requires
            scene_wf(self),
            ray_wf(ray@),
            0 <= t_min,
            t_max <= T_MAX,
        ensures
            opt_hit_view(h) == spec_scene_hit(self.spheres@, ray@, t_min as int, t_max as int),
            h matches Some(rec) ==> hit_wf(rec@) && t_min <= rec.t <= t_max && rec.material
                < self.materials@.len(),
    {
        let mut nearest: Option<HitRecord> = None;
        let n = self.spheres.len();
        let mut i: usize = 0;
        while i < n
            invariant
                0 <= i <= n,
                n == self.spheres@.len(),
                scene_wf(self),
                ray_wf(ray@),
                0 <= t_min,
                t_max <= T_MAX,
                opt_hit_view(nearest) == spec_scene_hit(
                    self.spheres@.take(i as int),
                    ray@,
                    t_min as int,
                    t_max as int,
                ),
                nearest matches Some(rec) ==> hit_wf(rec@) && t_min <= rec.t <= t_max
                    && rec.material < self.materials@.len(),
            decreases n - i,
        {
            let cur_max: i64 = match &nearest {
                Option::None => t_max,
                Option::Some(h) => h.t - 1,
            };
            let candidate = self.spheres[i].bounded_hit(ray, t_min, cur_max);
            proof {
                assert(self.spheres@.take(i + 1).drop_last() =~= self.spheres@.take(i as int));
                assert(self.spheres@.take(i + 1).last() == self.spheres@[i as int]);
            }
            if let Some(hit) = candidate {
                nearest = Some(hit);
            }
            i = i + 1;
        }
        proof {
            assert(self.spheres@.take(n as int) =~= self.spheres@);
        }
        nearest
    }

    /// Find and return the closest intersection along the ray in front of its
    /// origin.
    pub fn hit(&self, ray: &Ray) -> (h: Option<HitRecord>)
        requires
            scene_wf(self),
            ray_wf(ray@),
        ensures
            opt_hit_view(h) == spec_scene_hit(self.spheres@, ray@, EPSILON as int, T_MAX as int),
            h matches Some(rec) ==> hit_wf(rec@) && EPSILON <= rec.t <= T_MAX && rec.material
                < self.materials@.len(),
    {
        self.bounded_hit(ray, EPSILON, T_MAX)
    }
}

} // verus!

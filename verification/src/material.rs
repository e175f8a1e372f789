//! Surface materials and the scattering model: how light bounces off a
//! surface, as a tagged union over the three variants dispatched by one
//! match.

use vstd::prelude::*;

use crate::algebra::{
    ray_wf, spec_dot, spec_reflect, spec_refract, spec_v_add, spec_v_neg, spec_v_norm,
    spec_v_scale, v_bounded, Ray, V3i, Vec3,
};
use crate::color::{rgb_wf, Rgb};
use crate::fixed::{
    clamp64, fx_div, fx_mul, isqrt, lemma_abs_mul_bound, lemma_isqrt_lt, lemma_tdiv_bound,
    lemma_tdiv_lower, lemma_tdiv_sign, spec_clamp, spec_div, spec_min, spec_mul, sqrt_i128,
    SCALE,
};
use crate::sampler::{unit_sphere_point, Rng};
use crate::scene::{hit_wf, HitRecord};

verus! {

/// Smallest admitted refractive index, 1/16 in fixed point.
pub const IR_MIN: i64 = 4096;

/// Largest admitted refractive index, 16 in fixed point.
pub const IR_MAX: i64 = 1048576;

/// A surface material: a capability deciding how an incident ray scatters.
#[derive(Clone, Copy, Debug)]
pub enum Material {
    /// Ideal diffuse reflection via hemisphere sampling.
    Lambertian { albedo: Rgb },
    /// Specular reflection, perturbed by a fuzz factor in [0, 1].
    Metal { albedo: Rgb, fuzz: i64 },
    /// Transparent refractive surface with the given refractive index.
    Dielectric { index_of_refraction: i64 },
}

/// The parameters of a material lie in their admitted ranges.
pub open spec fn material_wf(m: Material) -> bool {
    match m {
        Material::Lambertian { albedo } => rgb_wf(albedo@),
        Material::Metal { albedo, fuzz } => rgb_wf(albedo@) && 0 <= fuzz <= SCALE,
        Material::Dielectric { index_of_refraction } => IR_MIN <= index_of_refraction <= IR_MAX,
    }
}

/// The refraction ratio a dielectric uses: the reciprocal of its index when
/// the ray enters at the front face, the index itself when it exits.
pub open spec fn spec_refraction_ratio(ir: int, front: bool) -> int {
    if front {
        spec_div(SCALE as int, ir)
    } else {
        ir
    }
}

/// Cosine of the incidence angle between the reversed unit incident
/// direction and the normal, capped at one.
pub open spec fn spec_cos_theta(u: V3i, n: V3i) -> int {
    spec_min(spec_dot(spec_v_neg(u), n), SCALE as int)
}

/// Sine of the incidence angle, from the Pythagorean identity.
pub open spec fn spec_sin_theta(u: V3i, n: V3i) -> int {
    let cos = spec_cos_theta(u, n);
    isqrt(65536 * 65536 - cos * cos)
}

/// Total internal reflection: Snell's law has no real solution.
pub open spec fn spec_cannot_refract(u: V3i, n: V3i, ratio: int) -> bool {
    spec_mul(ratio, spec_sin_theta(u, n)) > SCALE
}

/// Schlick's approximation of the Fresnel reflectance.
pub open spec fn spec_reflectance(cos: int, ratio: int) -> int {
    let r0 = spec_div(65536 - ratio, 65536 + ratio);
    let r0sq = spec_mul(r0, r0);
    let m1 = 65536 - cos;
    let m2 = spec_mul(m1, m1);
    let m5 = spec_mul(spec_mul(m2, m2), m1);
    r0sq + spec_mul(65536 - r0sq, m5)
}

impl Material {
    /// A diffuse material with the given albedo.
    pub fn lambertian(albedo: Rgb) -> (m: Material)
        requires
            rgb_wf(albedo@),
        ensures
            m == (Material::Lambertian { albedo }),
            material_wf(m),
    {
        Material::Lambertian { albedo }
    }

    /// A metallic material; the fuzz factor is forced into [0, 1].
    pub fn metal(albedo: Rgb, fuzz: i64) -> (m: Material)
        requires
            rgb_wf(albedo@),
        ensures
            m == (Material::Metal { albedo, fuzz: spec_clamp(fuzz as int, 0, SCALE as int) as i64 }),
            material_wf(m),
    {
        Material::Metal { albedo, fuzz: clamp64(fuzz, 0, SCALE) }
    }

    /// A glass-like material; the refractive index is forced into the
    /// admitted range.
    pub fn dielectric(index_of_refraction: i64) -> (m: Material)
        ensures
            m == (Material::Dielectric {
                index_of_refraction: spec_clamp(
                    index_of_refraction as int,
                    IR_MIN as int,
                    IR_MAX as int,
                ) as i64,
            }),
            material_wf(m),
    {
        Material::Dielectric { index_of_refraction: clamp64(index_of_refraction, IR_MIN, IR_MAX) }
    }

    /// Scatter the given ray at the given surface.  Returns a bounced ray
    /// and the albedo that attenuates the outgoing radiance; every current
    /// variant scatters, but a future one may absorb the ray and return
    /// nothing.
    pub fn scatter(&self, incident: &Ray, surface: &HitRecord, rng: &mut Rng) -> (res: Option<
        (Rgb, Ray),
    >)
        requires
            material_wf(*self),
            ray_wf(incident@),
            hit_wf(surface@),
        ensures
            res is Some,
            res matches Some((att, sray)) ==> {
                &&& sray.origin@ == surface@.point
                &&& ray_wf(sray@)
                &&& rgb_wf(att@)
                &&& (*self matches Material::Lambertian { albedo } ==> att == albedo && spec_dot(
                    sray.direction@,
                    surface@.normal,
                ) >= 0)
                &&& (*self matches Material::Metal { albedo, fuzz } ==> {
                    &&& att == albedo
                    &&& exists|s: V3i|
                        unit_sphere_point(s) && v_bounded(s, SCALE as int) && sray.direction@
                            == spec_v_add(
                            spec_reflect(spec_v_norm(incident@.direction), surface@.normal),
                            #[trigger] spec_v_scale(fuzz as int, s),
                        )
                    &&& fuzz == 0 ==> sray.direction@ == spec_reflect(
                        spec_v_norm(incident@.direction),
                        surface@.normal,
                    )
                })
                &&& (*self matches Material::Dielectric { index_of_refraction: ir } ==> {
                    let u = spec_v_norm(incident@.direction);
                    let n = surface@.normal;
                    let ratio = spec_refraction_ratio(ir as int, surface@.is_front_face);
                    &&& att@ == (V3i { x: SCALE as int, y: SCALE as int, z: SCALE as int })
                    &&& (spec_cannot_refract(u, n, ratio) ==> sray.direction@ == spec_reflect(u, n))
                    &&& (sray.direction@ == spec_reflect(u, n) || sray.direction@ == spec_refract(
                        u,
                        n,
                        ratio,
                    ))
                })
            },
    {
        match self {
            Material::Lambertian { albedo } => {
                let dir: Vec3 = rng.sample_hemisphere(&surface.normal);
                Some((*albedo, Ray { origin: surface.point, direction: dir }))
            },
            Material::Metal { albedo, fuzz } => {
                let unit_d: Vec3 = incident.direction.normalized();
                let mirror: Vec3 = unit_d.reflect(&surface.normal);
                let sample: Vec3 = rng.sample_sphere();
                proof {
                    lemma_abs_mul_bound(*fuzz as int, sample@.x, 65536, 65536);
                    lemma_abs_mul_bound(*fuzz as int, sample@.y, 65536, 65536);
                    lemma_abs_mul_bound(*fuzz as int, sample@.z, 65536, 65536);
                    lemma_tdiv_bound(*fuzz as int * sample@.x, 65536, 65536);
                    lemma_tdiv_bound(*fuzz as int * sample@.y, 65536, 65536);
                    lemma_tdiv_bound(*fuzz as int * sample@.z, 65536, 65536);
                }
                let fuzzed: Vec3 = sample.scale(*fuzz);
                let dir: Vec3 = mirror.add(&fuzzed);
                proof {
                    assert(dir@ == spec_v_add(
                        spec_reflect(spec_v_norm(incident@.direction), surface@.normal),
                        spec_v_scale(*fuzz as int, sample@),
                    ));
                    if *fuzz == 0 {
                        crate::algebra::lemma_zero_scale(sample@);
                        assert(dir@ == spec_reflect(
                            spec_v_norm(incident@.direction),
                            surface@.normal,
                        ));
                    }
                }
                Some((*albedo, Ray { origin: surface.point, direction: dir }))
            },
            Material::Dielectric { index_of_refraction } => {
                let ir: i64 = *index_of_refraction;
                let ratio: i64 = if surface.is_front_face {
                    proof {
                        lemma_tdiv_bound((65536 * 65536) as int, ir as int, 1048576);
                        lemma_tdiv_lower((65536 * 65536) as int, ir as int, 4096);
                    }
                    fx_div(SCALE, ir)
                } else {
                    ir
                };
                let unit_d: Vec3 = incident.direction.normalized();
                let neg_u: Vec3 = unit_d.neg();
                proof {
                    crate::algebra::lemma_dot_bound(neg_u@, surface@.normal, 65536, 65536, 196608);
                }
                let cos0: i64 = neg_u.dot(&surface.normal);
                let cos: i64 = if cos0 > SCALE {
                    SCALE
                } else {
                    cos0
                };
                proof {
                    lemma_abs_mul_bound(cos as int, cos as int, 196608, 196608);
                }
                let val: i64 = 65536 * 65536 - cos * cos;
                let sin: i64 = if val <= 0 {
                    proof {
                        assert(isqrt(val as int) == 0);
                    }
                    0
                } else {
                    proof {
                        lemma_isqrt_lt(val as int, 0x10000000);
                    }
                    sqrt_i128(val as i128) as i64
                };
                proof {
                    lemma_abs_mul_bound(ratio as int, sin as int, 0x1000000, 0x10000000);
                    lemma_tdiv_bound(ratio as int * sin as int, 65536, 0x4000000000);
                }
                let cannot_refract: bool = fx_mul(ratio, sin) > SCALE;
                let refl: i64 = reflectance(cos, ratio);
                let draw: i64 = rng.random_float();
                let dir: Vec3 = if cannot_refract || refl > draw {
                    unit_d.reflect(&surface.normal)
                } else {
                    unit_d.refract(&surface.normal, ratio)
                };
                Some((Rgb::white(), Ray { origin: surface.point, direction: dir }))
            },
        }
    }
}

/// Schlick's approximation for the reflectance of a dielectric boundary.
pub fn reflectance(cosine: i64, ratio: i64) -> (r: i64)
    requires
        -196608 <= cosine <= 65536,
        0 <= ratio <= 0x1000000,
    ensures
        r == spec_reflectance(cosine as int, ratio as int),
        r >= 0,
{
    let num: i64 = SCALE - ratio;
    let den: i64 = SCALE + ratio;
    proof {
        lemma_tdiv_bound(num as int * 65536, den as int, 65536);
    }
    let r0: i64 = fx_div(num, den);
    proof {
        lemma_abs_mul_bound(r0 as int, r0 as int, 65536, 65536);
        lemma_tdiv_bound(r0 as int * r0 as int, 65536, 65536);
        assert(r0 as int * r0 as int >= 0) by (nonlinear_arith);
        lemma_tdiv_sign(r0 as int * r0 as int, 65536);
    }
    let r0sq: i64 = fx_mul(r0, r0);
    let m1: i64 = SCALE - cosine;
    proof {
        lemma_abs_mul_bound(m1 as int, m1 as int, 262144, 262144);
        lemma_tdiv_bound(m1 as int * m1 as int, 65536, 1048576);
        assert(m1 as int * m1 as int >= 0) by (nonlinear_arith);
        lemma_tdiv_sign(m1 as int * m1 as int, 65536);
    }
    let m2: i64 = fx_mul(m1, m1);
    proof {
        lemma_abs_mul_bound(m2 as int, m2 as int, 1048576, 1048576);
        lemma_tdiv_bound(m2 as int * m2 as int, 65536, 16777216);
        assert(m2 as int * m2 as int >= 0) by (nonlinear_arith)
            requires
                m2 >= 0;
    }
    let m4: i64 = fx_mul(m2, m2);
    proof {
        lemma_tdiv_sign(m2 as int * m2 as int, 65536);
        lemma_abs_mul_bound(m4 as int, m1 as int, 16777216, 262144);
        lemma_tdiv_bound(m4 as int * m1 as int, 65536, 67108864);
        assert(m4 as int * m1 as int >= 0) by (nonlinear_arith)
            requires
                m4 >= 0,
                m1 >= 0;
    }
    let m5: i64 = fx_mul(m4, m1);
    proof {
        lemma_tdiv_sign(m4 as int * m1 as int, 65536);
        lemma_abs_mul_bound(65536 - r0sq as int, m5 as int, 131072, 67108864);
        lemma_tdiv_bound((65536 - r0sq as int) * m5 as int, 65536, 134217728);
        assert((65536 - r0sq as int) * m5 as int >= 0) by (nonlinear_arith)
            requires
                r0sq <= 65536,
                m5 >= 0;
    }
    let tail: i64 = fx_mul(SCALE - r0sq, m5);
    proof {
        lemma_tdiv_sign((65536 - r0sq as int) * m5 as int, 65536);
    }
    r0sq + tail
}

} // verus!

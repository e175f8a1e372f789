//! The pseudo-random sampler feeding the renderer.
//!
//! The raw bits come from `rand`'s `SmallRng` behind trusted wrappers; every
//! value derived from them (uniform scalars, points on the unit sphere or
//! disk, hemisphere directions) is computed and bounded in verified code, so
//! the contracts state what holds of every possible draw.

use vstd::prelude::*;

use crate::algebra::{lemma_dot_neg, spec_dot, spec_v_neg, spec_v_norm, v_bounded, V3i, Vec3};
use crate::fixed::SCALE;

verus! {

/// A point on the unit sphere as this sampler produces it: the normalization
/// of a candidate whose raw squared length lies in the accepted shell, with
/// radius between one quarter and one.
pub open spec fn unit_sphere_point(v: V3i) -> bool {
    exists|c: V3i|
        0x10000000 <= c.x * c.x + c.y * c.y + c.z * c.z <= 0x100000000 && v == #[trigger] spec_v_norm(
            c,
        )
}

/// Declares `rand`'s small generator type so that it can be stored here.
#[verifier::external_type_specification]
#[verifier::external_body]
pub struct ExSmallRng(rand::rngs::SmallRng);

/// Relies on `rand::SeedableRng::seed_from_u64` for `SmallRng`: a generator
/// built deterministically from the seed.
#[verifier::external_body]
fn small_rng_from_seed(seed: u64) -> rand::rngs::SmallRng {
    rand::SeedableRng::seed_from_u64(seed)
}

/// Relies on `rand::SeedableRng::from_entropy` for `SmallRng`: a generator
/// seeded from the operating system.
#[verifier::external_body]
fn small_rng_from_entropy() -> rand::rngs::SmallRng {
    rand::SeedableRng::from_entropy()
}

/// Relies on `rand::RngCore::next_u32` for `SmallRng`: the next 32 bits of
/// the generator's stream; nothing can be promised of their value.
#[verifier::external_body]
fn small_rng_next_u32(r: &mut rand::rngs::SmallRng) -> u32 {
    rand::RngCore::next_u32(r)
}

/// A pseudo-random sampler.  Each concurrent rendering task owns one; no
/// generator state is ever shared.
pub struct Rng {
    inner: rand::rngs::SmallRng,
}

impl Rng {
    /// A sampler seeded from the operating system.  If the operating
    /// system's entropy source fails, the underlying generator aborts the
    /// process; use `from_seed` where that is unacceptable.
    pub fn new() -> Rng {
        Rng { inner: small_rng_from_entropy() }
    }

    /// A sampler with a deterministic stream, for reproducible renders.
    pub fn from_seed(seed: u64) -> Rng {
        Rng { inner: small_rng_from_seed(seed) }
    }

    /// One uniform draw from [0, 1): a fixed-point scalar in [0, SCALE).
    pub fn random_float(&mut self) -> (r: i64)
        ensures
            0 <= r < SCALE,
    {
        let u: u32 = small_rng_next_u32(&mut self.inner);
        (u % 65536) as i64
    }

    /// One uniform draw from [-1, 1): a fixed-point scalar in [-SCALE, SCALE).
    fn random_signed(&mut self) -> (r: i64)
        ensures
            -SCALE <= r < SCALE,
    {
        let u: i64 = self.random_float();
        2 * u - 65536
    }

    /// A vector whose components are independent uniform draws from [0, 1).
    pub fn random_vec3(&mut self) -> (v: Vec3)
        ensures
            0 <= v@.x < SCALE,
            0 <= v@.y < SCALE,
            0 <= v@.z < SCALE,
    {
        let x: i64 = self.random_float();
        let y: i64 = self.random_float();
        let z: i64 = self.random_float();
        Vec3 { x, y, z }
    }

    /// A vector whose components are independent uniform draws from
    /// [min, max).
    pub fn random_vec3_in_range(&mut self, min: i64, max: i64) -> (v: Vec3)
        requires
            0 <= min <= max <= SCALE,
        ensures
            min <= v@.x <= max,
            min <= v@.y <= max,
            min <= v@.z <= max,
    {
        let x: i64 = self.range_draw(min, max);
        let y: i64 = self.range_draw(min, max);
        let z: i64 = self.range_draw(min, max);
        Vec3 { x, y, z }
    }

    /// One uniform draw from [min, max).
    fn range_draw(&mut self, min: i64, max: i64) -> (r: i64)
        requires
            0 <= min <= max <= SCALE,
        ensures
            min <= r <= max,
    {
        let u: i64 = self.random_float();
        let d: i64 = max - min;
        proof {
            crate::fixed::lemma_abs_mul_bound(u as int, d as int, 65536, d as int);
            crate::fixed::lemma_tdiv_bound(u as int * d as int, 65536, d as int);
            crate::fixed::lemma_tdiv_sign(u as int * d as int, 65536);
            assert(u as int * d as int >= 0) by (nonlinear_arith)
                requires
                    u >= 0,
                    d >= 0;
        }
        let s: i128 = crate::fixed::div_trunc((u as i128) * (d as i128), 65536);
        min + (s as i64)
    }

    /// A point uniformly distributed on the surface of the unit sphere:
    /// rejection sampling of the enclosing cube keeps the points of the ball
    /// whose radius lies in [1/4, 1] (any radially symmetric ball
    /// distribution projects uniformly onto the sphere), and the accepted
    /// point is rescaled to unit length.
    pub fn sample_sphere(&mut self) -> (v: Vec3)
        ensures
            v_bounded(v@, SCALE as int),
            unit_sphere_point(v@),
    {
        let mut attempts: u32 = 0;
        while attempts < 64
            invariant
                attempts <= 64,
            decreases 64 - attempts,
        {
            let x: i64 = self.random_signed();
            let y: i64 = self.random_signed();
            let z: i64 = self.random_signed();
            proof {
                crate::fixed::lemma_abs_mul_bound(x as int, x as int, 65536, 65536);
                crate::fixed::lemma_abs_mul_bound(y as int, y as int, 65536, 65536);
                crate::fixed::lemma_abs_mul_bound(z as int, z as int, 65536, 65536);
            }
            let p: i64 = x * x + y * y + z * z;
            if 268435456 <= p && p <= 65536 * 65536 {
                let cand: Vec3 = Vec3 { x, y, z };
                let r: Vec3 = cand.normalized();
                proof {
                    assert(r@ == spec_v_norm(cand@));
                    assert(0x10000000 <= cand@.x * cand@.x + cand@.y * cand@.y + cand@.z * cand@.z
                        <= 0x100000000);
                    assert(unit_sphere_point(r@));
                }
                return r;
            }
            attempts = attempts + 1;
        }
        let fallback: Vec3 = Vec3 { x: 0, y: 0, z: SCALE };
        proof {
            lemma_axis_unit_norm();
            let c = V3i { x: 0, y: 0, z: 65536 };
            assert(c.x * c.x + c.y * c.y + c.z * c.z == 0x100000000) by (nonlinear_arith)
                requires
                    c == (V3i { x: 0, y: 0, z: 65536 });
            assert(unit_sphere_point(fallback@));
        }
        fallback
    }

    /// A point on the unit sphere lying in the hemisphere around `normal`:
    /// the sphere sample, negated if it opposes the normal.
    pub fn sample_hemisphere(&mut self, normal: &Vec3) -> (v: Vec3)
        requires
            v_bounded(normal@, SCALE as int),
        ensures
            v_bounded(v@, SCALE as int),
            spec_dot(v@, normal@) >= 0,
            exists|s: V3i| #[trigger] unit_sphere_point(s) && (v@ == s || v@ == spec_v_neg(s)),
    {
        let vec: Vec3 = self.sample_sphere();
        proof {
            crate::algebra::lemma_dot_bound(vec@, normal@, 65536, 65536, 196608);
        }
        let d: i64 = vec.dot(normal);
        if d < 0 {
            proof {
                lemma_dot_neg(vec@, normal@);
            }
            let flipped = vec.neg();
            proof {
                assert(flipped@ == spec_v_neg(vec@));
            }
            flipped
        } else {
            vec
        }
    }

    /// A point uniformly distributed inside the unit disk in the x-y plane,
    /// found by rejection sampling of the enclosing square.
    pub fn sample_disk(&mut self) -> (v: Vec3)
        ensures
            v_bounded(v@, SCALE as int),
            v@.z == 0,
            v@.x * v@.x + v@.y * v@.y <= 0x100000000,
    {
        let mut attempts: u32 = 0;
        while attempts < 64
            invariant
                attempts <= 64,
            decreases 64 - attempts,
        {
            let x: i64 = self.random_signed();
            let y: i64 = self.random_signed();
            proof {
                crate::fixed::lemma_abs_mul_bound(x as int, x as int, 65536, 65536);
                crate::fixed::lemma_abs_mul_bound(y as int, y as int, 65536, 65536);
            }
            let p: i64 = x * x + y * y;
            if p <= 65536 * 65536 {
                return Vec3 { x, y, z: 0 };
            }
            attempts = attempts + 1;
        }
        proof {
            assert(0int * 0 + 0 * 0 <= 0x100000000) by (nonlinear_arith);
        }
        Vec3 { x: 0, y: 0, z: 0 }
    }
}

/// The unit vector along the z axis is its own normalization.
proof fn lemma_axis_unit_norm()
    ensures
        (V3i { x: 0, y: 0, z: SCALE as int }) == spec_v_norm(V3i { x: 0, y: 0, z: SCALE as int }),
        exists|c: V3i| (V3i { x: 0, y: 0, z: SCALE as int }) == spec_v_norm(c),
{
    let v = V3i { x: 0, y: 0, z: SCALE as int };
    crate::fixed::lemma_isqrt_square(65536);
    assert(v.x * v.x == 0 && v.y * v.y == 0 && v.z * v.z == 65536 * 65536);
    assert(crate::algebra::spec_v_len(v) == 65536);
    vstd::arithmetic::div_mod::lemma_div_multiples_vanish(65536, 65536);
    assert(crate::fixed::tdiv((65536 * 65536) as int, 65536) == 65536);
    vstd::arithmetic::div_mod::lemma_div_of0(65536);
    assert(spec_v_norm(v) == v);
}

} // verus!

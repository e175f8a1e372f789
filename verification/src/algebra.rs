//! Three-component vectors, points and rays over fixed-point scalars.

use vstd::prelude::*;

use crate::fixed::{
    div_trunc, fx_sqrt, isqrt, lemma_abs_mul_bound, lemma_isqrt_le, lemma_isqrt_lt,
    lemma_isqrt_square, lemma_tdiv_bound, lemma_tdiv_neg, lemma_tdiv_sign, spec_abs, spec_min,
    spec_mul, spec_sqrt, sqrt_i128, tdiv, DIR_MAX, POS_MAX, SCALE, T_MAX,
};

verus! {

/// Mathematical image of a vector: three unbounded integers, each a
/// fixed-point numerator.
pub ghost struct V3i {
    pub x: int,
    pub y: int,
    pub z: int,
}

/// Every component lies within `[-m, m]`.
pub open spec fn v_bounded(v: V3i, m: int) -> bool {
    &&& -m <= v.x <= m
    &&& -m <= v.y <= m
    &&& -m <= v.z <= m
}

/// Componentwise sum.
pub open spec fn spec_v_add(a: V3i, b: V3i) -> V3i {
    V3i { x: a.x + b.x, y: a.y + b.y, z: a.z + b.z }
}

/// Componentwise difference.
pub open spec fn spec_v_sub(a: V3i, b: V3i) -> V3i {
    V3i { x: a.x - b.x, y: a.y - b.y, z: a.z - b.z }
}

/// Componentwise negation.
pub open spec fn spec_v_neg(a: V3i) -> V3i {
    V3i { x: -a.x, y: -a.y, z: -a.z }
}

/// The vector scaled by a fixed-point factor.
pub open spec fn spec_v_scale(t: int, v: V3i) -> V3i {
    V3i { x: spec_mul(t, v.x), y: spec_mul(t, v.y), z: spec_mul(t, v.z) }
}

/// Componentwise product of two vectors (used for colors).
pub open spec fn spec_v_mul(a: V3i, b: V3i) -> V3i {
    V3i { x: spec_mul(a.x, b.x), y: spec_mul(a.y, b.y), z: spec_mul(a.z, b.z) }
}

/// Inner product of two fixed-point vectors, rounded once.
pub open spec fn spec_dot(a: V3i, b: V3i) -> int {
    tdiv(a.x * b.x + a.y * b.y + a.z * b.z, SCALE as int)
}

/// Cross product of two fixed-point vectors, each component rounded once.
pub open spec fn spec_cross(a: V3i, b: V3i) -> V3i {
    V3i {
        x: tdiv(a.y * b.z - a.z * b.y, SCALE as int),
        y: tdiv(a.z * b.x - a.x * b.z, SCALE as int),
        z: tdiv(a.x * b.y - a.y * b.x, SCALE as int),
    }
}

/// Euclidean length of a fixed-point vector: the integer square root of the
/// raw sum of squares is again a fixed-point scalar.
pub open spec fn spec_v_len(v: V3i) -> int {
    isqrt(v.x * v.x + v.y * v.y + v.z * v.z)
}

/// The vector rescaled to (near) unit length; the zero vector stays zero.
pub open spec fn spec_v_norm(v: V3i) -> V3i {
    let len = spec_v_len(v);
    if len == 0 {
        V3i { x: 0, y: 0, z: 0 }
    } else {
        V3i {
            x: tdiv(v.x * SCALE, len),
            y: tdiv(v.y * SCALE, len),
            z: tdiv(v.z * SCALE, len),
        }
    }
}

/// Mirror reflection of `v` about the unit normal `n`: `v - 2 (v . n) n`.
pub open spec fn spec_reflect(v: V3i, n: V3i) -> V3i {
    let d = spec_dot(v, n);
    V3i {
        x: v.x - tdiv(2 * d * n.x, SCALE as int),
        y: v.y - tdiv(2 * d * n.y, SCALE as int),
        z: v.z - tdiv(2 * d * n.z, SCALE as int),
    }
}

/// Snell refraction of the unit vector `v` at the unit normal `n`, decomposed
/// into the perpendicular and parallel parts.
pub open spec fn spec_refract(v: V3i, n: V3i, ratio: int) -> V3i {
    let cos = spec_min(spec_dot(spec_v_neg(v), n), SCALE as int);
    let perp = spec_v_scale(ratio, spec_v_add(v, spec_v_scale(cos, n)));
    let k = spec_abs(SCALE - spec_dot(perp, perp));
    let par = spec_v_scale(spec_sqrt(k), spec_v_neg(n));
    spec_v_add(perp, par)
}

/// A point bound: positions the renderer works with.
pub open spec fn pos_bounded(v: V3i) -> bool {
    v_bounded(v, POS_MAX as int)
}

/// A direction bound: ray directions the renderer works with.
pub open spec fn dir_bounded(v: V3i) -> bool {
    v_bounded(v, DIR_MAX as int)
}

/// A product of bounds transfers to the inner product.
pub proof fn lemma_dot_bound(a: V3i, b: V3i, ca: int, cb: int, m: int)
    requires
        0 <= ca,
        0 <= cb,
        0 <= m,
        v_bounded(a, ca),
        v_bounded(b, cb),
        3 * (ca * cb) <= 65536 * m,
    ensures
        -m <= spec_dot(a, b) <= m,
{
    lemma_abs_mul_bound(a.x, b.x, ca, cb);
    lemma_abs_mul_bound(a.y, b.y, ca, cb);
    lemma_abs_mul_bound(a.z, b.z, ca, cb);
    lemma_tdiv_bound(a.x * b.x + a.y * b.y + a.z * b.z, 65536, m);
}

/// A three-component fixed-point vector; also used for points in space.
#[derive(Clone, Copy, Debug, PartialEq, Eq, Structural)]
pub struct Vec3 {
    pub x: i64,
    pub y: i64,
    pub z: i64,
}

/// A point in space is a vector from the world origin.
pub type Point3 = Vec3;

impl View for Vec3 {
    type V = V3i;

    open spec fn view(&self) -> V3i {
        V3i { x: self.x as int, y: self.y as int, z: self.z as int }
    }
}

impl Vec3 {
    /// A vector from its three components.
    pub fn new(x: i64, y: i64, z: i64) -> (v: Vec3)
        ensures
            v@ == (V3i { x: x as int, y: y as int, z: z as int }),
    {
        Vec3 { x, y, z }
    }

    /// First component.
    pub fn x(&self) -> (r: i64)
        ensures
            r == self@.x,
    {
        self.x
    }

    /// Second component.
    pub fn y(&self) -> (r: i64)
        ensures
            r == self@.y,
    {
        self.y
    }

    /// Third component.
    pub fn z(&self) -> (r: i64)
        ensures
            r == self@.z,
    {
        self.z
    }

    /// Componentwise sum.
    pub fn add(&self, rhs: &Vec3) -> (r: Vec3)
        requires
            v_bounded(self@, 0x3fffffffffffffff),
            v_bounded(rhs@, 0x3fffffffffffffff),
        ensures
            r@ == spec_v_add(self@, rhs@),
    {
        Vec3 { x: self.x + rhs.x, y: self.y + rhs.y, z: self.z + rhs.z }
    }

    /// Componentwise difference.
    pub fn sub(&self, rhs: &Vec3) -> (r: Vec3)
        requires
            v_bounded(self@, 0x3fffffffffffffff),
            v_bounded(rhs@, 0x3fffffffffffffff),
        ensures
            r@ == spec_v_sub(self@, rhs@),
    {
        Vec3 { x: self.x - rhs.x, y: self.y - rhs.y, z: self.z - rhs.z }
    }

    /// Componentwise negation.
    pub fn neg(&self) -> (r: Vec3)
        requires
            v_bounded(self@, 0x7fffffffffffffff),
        ensures
            r@ == spec_v_neg(self@),
    {
        Vec3 { x: -self.x, y: -self.y, z: -self.z }
    }

    /// The vector scaled by a fixed-point factor.
    pub fn scale(&self, t: i64) -> (r: Vec3)
        requires
            v_bounded(self@, 0x4000000000000000),
            -0x4000000000000000 <= t <= 0x4000000000000000,
            -i64::MAX <= spec_mul(t as int, self@.x) <= i64::MAX,
            -i64::MAX <= spec_mul(t as int, self@.y) <= i64::MAX,
            -i64::MAX <= spec_mul(t as int, self@.z) <= i64::MAX,
        ensures
            r@ == spec_v_scale(t as int, self@),
    {
        let x: i128 = div_trunc((t as i128) * (self.x as i128), 65536);
        let y: i128 = div_trunc((t as i128) * (self.y as i128), 65536);
        let z: i128 = div_trunc((t as i128) * (self.z as i128), 65536);
        Vec3 { x: x as i64, y: y as i64, z: z as i64 }
    }

    /// Componentwise product.
    pub fn mul(&self, rhs: &Vec3) -> (r: Vec3)
        requires
            v_bounded(self@, 0x4000000000000000),
            v_bounded(rhs@, 0x4000000000000000),
            -i64::MAX <= spec_mul(self@.x, rhs@.x) <= i64::MAX,
            -i64::MAX <= spec_mul(self@.y, rhs@.y) <= i64::MAX,
            -i64::MAX <= spec_mul(self@.z, rhs@.z) <= i64::MAX,
        ensures
            r@ == spec_v_mul(self@, rhs@),
    {
        let x: i128 = div_trunc((self.x as i128) * (rhs.x as i128), 65536);
        let y: i128 = div_trunc((self.y as i128) * (rhs.y as i128), 65536);
        let z: i128 = div_trunc((self.z as i128) * (rhs.z as i128), 65536);
        Vec3 { x: x as i64, y: y as i64, z: z as i64 }
    }

    /// Inner product.
    pub fn dot(&self, rhs: &Vec3) -> (r: i64)
        requires
            v_bounded(self@, 0x4000000000000000),
            v_bounded(rhs@, 0x4000000000000000),
            -i64::MAX <= spec_dot(self@, rhs@) <= i64::MAX,
        ensures
            r == spec_dot(self@, rhs@),
    {
        proof {
            lemma_abs_mul_bound(self@.x, rhs@.x, 0x4000000000000000, 0x4000000000000000);
            lemma_abs_mul_bound(self@.y, rhs@.y, 0x4000000000000000, 0x4000000000000000);
            lemma_abs_mul_bound(self@.z, rhs@.z, 0x4000000000000000, 0x4000000000000000);
        }
        let p: i128 = (self.x as i128) * (rhs.x as i128) + (self.y as i128) * (rhs.y as i128)
            + (self.z as i128) * (rhs.z as i128);
        let q: i128 = div_trunc(p, 65536);
        q as i64
    }

    /// Cross product.
    pub fn cross(&self, rhs: &Vec3) -> (r: Vec3)
        requires
            v_bounded(self@, 0x80000000),
            v_bounded(rhs@, 0x80000000),
        ensures
            r@ == spec_cross(self@, rhs@),
            v_bounded(r@, 0x800000000000),
    {
        proof {
            lemma_abs_mul_bound(self@.y, rhs@.z, 0x80000000, 0x80000000);
            lemma_abs_mul_bound(self@.z, rhs@.y, 0x80000000, 0x80000000);
            lemma_abs_mul_bound(self@.z, rhs@.x, 0x80000000, 0x80000000);
            lemma_abs_mul_bound(self@.x, rhs@.z, 0x80000000, 0x80000000);
            lemma_abs_mul_bound(self@.x, rhs@.y, 0x80000000, 0x80000000);
            lemma_abs_mul_bound(self@.y, rhs@.x, 0x80000000, 0x80000000);
            lemma_tdiv_bound((self@.y * rhs@.z - self@.z * rhs@.y), 65536, 0x800000000000);
            lemma_tdiv_bound((self@.z * rhs@.x - self@.x * rhs@.z), 65536, 0x800000000000);
            lemma_tdiv_bound((self@.x * rhs@.y - self@.y * rhs@.x), 65536, 0x800000000000);
        }
        let x: i128 = div_trunc(
            (self.y as i128) * (rhs.z as i128) - (self.z as i128) * (rhs.y as i128),
            65536,
        );
        let y: i128 = div_trunc(
            (self.z as i128) * (rhs.x as i128) - (self.x as i128) * (rhs.z as i128),
            65536,
        );
        let z: i128 = div_trunc(
            (self.x as i128) * (rhs.y as i128) - (self.y as i128) * (rhs.x as i128),
            65536,
        );
        Vec3 { x: x as i64, y: y as i64, z: z as i64 }
    }

    /// Squared Euclidean length.
    pub fn length_squared(&self) -> (r: i64)
        requires
            v_bounded(self@, 0x4000000000000000),
            -i64::MAX <= spec_dot(self@, self@) <= i64::MAX,
        ensures
            r == spec_dot(self@, self@),
            r >= 0,
    {
        let r: i64 = self.dot(self);
        proof {
            lemma_abs_mul_bound(self@.x, self@.x, 0x4000000000000000, 0x4000000000000000);
            lemma_tdiv_sign(
                self@.x * self@.x + self@.y * self@.y + self@.z * self@.z,
                65536,
            );
            assert(self@.x * self@.x >= 0) by (nonlinear_arith);
            assert(self@.y * self@.y >= 0) by (nonlinear_arith);
            assert(self@.z * self@.z >= 0) by (nonlinear_arith);
        }
        r
    }

    /// Euclidean length.
    pub fn length(&self) -> (r: i64)
        requires
            v_bounded(self@, 0x4000000000000000),
        ensures
            r == spec_v_len(self@),
            r >= 0,
    {
        let p: i128 = self.raw_norm_squared();
        proof {
            lemma_isqrt_lt(p as int, 0x8000000000000000);
        }
        let r: i128 = sqrt_i128(p);
        r as i64
    }

    /// The vector rescaled to (near) unit length; each component of the
    /// result is at most one.
    pub fn normalized(&self) -> (r: Vec3)
        requires
            v_bounded(self@, 0x4000000000000000),
        ensures
            r@ == spec_v_norm(self@),
            v_bounded(r@, SCALE as int),
    {
        let p: i128 = self.raw_norm_squared();
        let len: i128 = sqrt_i128(p);
        if len == 0 {
            Vec3 { x: 0, y: 0, z: 0 }
        } else {
            proof {
                lemma_component_le_len(self@);
                lemma_tdiv_bound(self@.x * SCALE, len as int, SCALE as int);
                lemma_tdiv_bound(self@.y * SCALE, len as int, SCALE as int);
                lemma_tdiv_bound(self@.z * SCALE, len as int, SCALE as int);
            }
            let x: i128 = div_trunc((self.x as i128) * 65536, len);
            let y: i128 = div_trunc((self.y as i128) * 65536, len);
            let z: i128 = div_trunc((self.z as i128) * 65536, len);
            Vec3 { x: x as i64, y: y as i64, z: z as i64 }
        }
    }

    /// Raw (unscaled) sum of component squares.
    fn raw_norm_squared(&self) -> (p: i128)
        requires
            v_bounded(self@, 0x4000000000000000),
        ensures
            p == self@.x * self@.x + self@.y * self@.y + self@.z * self@.z,
            0 <= p < 0x40000000000000000000000000000000,
    {
        proof {
            lemma_abs_mul_bound(self@.x, self@.x, 0x4000000000000000, 0x4000000000000000);
            lemma_abs_mul_bound(self@.y, self@.y, 0x4000000000000000, 0x4000000000000000);
            lemma_abs_mul_bound(self@.z, self@.z, 0x4000000000000000, 0x4000000000000000);
            assert(self@.x * self@.x >= 0) by (nonlinear_arith);
            assert(self@.y * self@.y >= 0) by (nonlinear_arith);
            assert(self@.z * self@.z >= 0) by (nonlinear_arith);
        }
        (self.x as i128) * (self.x as i128) + (self.y as i128) * (self.y as i128)
            + (self.z as i128) * (self.z as i128)
    }

    /// Mirror reflection about a (near) unit normal.
    pub fn reflect(&self, normal: &Vec3) -> (r: Vec3)
        requires
            v_bounded(self@, 262144),
            v_bounded(normal@, 262144),
        ensures
            r@ == spec_reflect(self@, normal@),
            v_bounded(self@, SCALE as int) && v_bounded(normal@, SCALE as int) ==> v_bounded(
                r@,
                7 * SCALE as int,
            ),
    {
        proof {
            lemma_dot_bound(self@, normal@, 262144, 262144, 3145728);
        }
        let d: i64 = self.dot(normal);
        proof {
            lemma_abs_mul_bound(2 * d as int, normal@.x, 6291456, 262144);
            lemma_abs_mul_bound(2 * d as int, normal@.y, 6291456, 262144);
            lemma_abs_mul_bound(2 * d as int, normal@.z, 6291456, 262144);
            lemma_tdiv_bound(2 * (d as int) * normal@.x, 65536, 25165824);
            lemma_tdiv_bound(2 * (d as int) * normal@.y, 65536, 25165824);
            lemma_tdiv_bound(2 * (d as int) * normal@.z, 65536, 25165824);
            if v_bounded(self@, SCALE as int) && v_bounded(normal@, SCALE as int) {
                lemma_dot_bound(self@, normal@, 65536, 65536, 196608);
                lemma_abs_mul_bound(2 * d as int, normal@.x, 393216, 65536);
                lemma_abs_mul_bound(2 * d as int, normal@.y, 393216, 65536);
                lemma_abs_mul_bound(2 * d as int, normal@.z, 393216, 65536);
                lemma_tdiv_bound(2 * (d as int) * normal@.x, 65536, 393216);
                lemma_tdiv_bound(2 * (d as int) * normal@.y, 65536, 393216);
                lemma_tdiv_bound(2 * (d as int) * normal@.z, 65536, 393216);
            }
        }
        let tx: i128 = div_trunc(2 * (d as i128) * (normal.x as i128), 65536);
        let ty: i128 = div_trunc(2 * (d as i128) * (normal.y as i128), 65536);
        let tz: i128 = div_trunc(2 * (d as i128) * (normal.z as i128), 65536);
        Vec3 {
            x: (self.x as i128 - tx) as i64,
            y: (self.y as i128 - ty) as i64,
            z: (self.z as i128 - tz) as i64,
        }
    }
}

impl Vec3 {
    /// Snell refraction of this (near) unit vector at a (near) unit normal;
    /// `ratio` is the quotient of the refractive indices on the two sides.
    pub fn refract(&self, normal: &Vec3, ratio: i64) -> (r: Vec3)
        requires
            v_bounded(self@, SCALE as int),
            v_bounded(normal@, SCALE as int),
            0 <= ratio <= 0x1000000,
        ensures
            r@ == spec_refract(self@, normal@, ratio as int),
            v_bounded(r@, DIR_MAX as int),
    {
        let neg_v: Vec3 = self.neg();
        proof {
            lemma_dot_bound(neg_v@, normal@, 65536, 65536, 196608);
        }
        let cos0: i64 = neg_v.dot(normal);
        let cos: i64 = if cos0 > SCALE {
            SCALE
        } else {
            cos0
        };
        proof {
            lemma_abs_mul_bound(cos as int, normal@.x, 196608, 65536);
            lemma_abs_mul_bound(cos as int, normal@.y, 196608, 65536);
            lemma_abs_mul_bound(cos as int, normal@.z, 196608, 65536);
            lemma_tdiv_bound(cos as int * normal@.x, 65536, 196608);
            lemma_tdiv_bound(cos as int * normal@.y, 65536, 196608);
            lemma_tdiv_bound(cos as int * normal@.z, 65536, 196608);
        }
        let sx: i128 = (self.x as i128) + div_trunc((cos as i128) * (normal.x as i128), 65536);
        let sy: i128 = (self.y as i128) + div_trunc((cos as i128) * (normal.y as i128), 65536);
        let sz: i128 = (self.z as i128) + div_trunc((cos as i128) * (normal.z as i128), 65536);
        proof {
            lemma_abs_mul_bound(ratio as int, sx as int, 0x1000000, 262144);
            lemma_abs_mul_bound(ratio as int, sy as int, 0x1000000, 262144);
            lemma_abs_mul_bound(ratio as int, sz as int, 0x1000000, 262144);
            lemma_tdiv_bound(ratio as int * sx as int, 65536, 0x4000000);
            lemma_tdiv_bound(ratio as int * sy as int, 65536, 0x4000000);
            lemma_tdiv_bound(ratio as int * sz as int, 65536, 0x4000000);
        }
        let px: i128 = div_trunc((ratio as i128) * sx, 65536);
        let py: i128 = div_trunc((ratio as i128) * sy, 65536);
        let pz: i128 = div_trunc((ratio as i128) * sz, 65536);
        let perp: Vec3 = Vec3 { x: px as i64, y: py as i64, z: pz as i64 };
        proof {
            assert(perp@ == spec_v_scale(
                ratio as int,
                spec_v_add(self@, spec_v_scale(cos as int, normal@)),
            ));
            lemma_dot_bound(perp@, perp@, 0x4000000, 0x4000000, 0x3000000000);
        }
        let pl: i64 = perp.dot(&perp);
        let k0: i64 = SCALE - pl;
        let k: i64 = if k0 >= 0 {
            k0
        } else {
            -k0
        };
        let sq: i64 = fx_sqrt(k);
        proof {
            lemma_isqrt_lt(k as int * 65536, 0x8000000);
            lemma_abs_mul_bound(sq as int, -normal@.x, 0x8000000, 65536);
            lemma_abs_mul_bound(sq as int, -normal@.y, 0x8000000, 65536);
            lemma_abs_mul_bound(sq as int, -normal@.z, 0x8000000, 65536);
            lemma_tdiv_bound(sq as int * -normal@.x, 65536, 0x8000000);
            lemma_tdiv_bound(sq as int * -normal@.y, 65536, 0x8000000);
            lemma_tdiv_bound(sq as int * -normal@.z, 65536, 0x8000000);
        }
        let negn: Vec3 = normal.neg();
        let qx: i128 = div_trunc((sq as i128) * (negn.x as i128), 65536);
        let qy: i128 = div_trunc((sq as i128) * (negn.y as i128), 65536);
        let qz: i128 = div_trunc((sq as i128) * (negn.z as i128), 65536);
        let r: Vec3 = Vec3 { x: (px + qx) as i64, y: (py + qy) as i64, z: (pz + qz) as i64 };
        proof {
            assert(r@ == spec_refract(self@, normal@, ratio as int));
        }
        r
    }
}

/// Scaling by zero yields the zero vector.
pub proof fn lemma_zero_scale(v: V3i)
    ensures
        spec_v_scale(0, v) == (V3i { x: 0, y: 0, z: 0 }),
{
    assert(0 * v.x == 0) by (nonlinear_arith);
    assert(0 * v.y == 0) by (nonlinear_arith);
    assert(0 * v.z == 0) by (nonlinear_arith);
    vstd::arithmetic::div_mod::lemma_div_of0(65536);
}

/// No component exceeds the Euclidean length.
proof fn lemma_component_le_len(v: V3i)
    ensures
        spec_abs(v.x) <= spec_v_len(v),
        spec_abs(v.y) <= spec_v_len(v),
        spec_abs(v.z) <= spec_v_len(v),
{
    let s = v.x * v.x + v.y * v.y + v.z * v.z;
    assert(v.x * v.x >= 0 && v.y * v.y >= 0 && v.z * v.z >= 0) by (nonlinear_arith);
    assert(spec_abs(v.x) * spec_abs(v.x) == v.x * v.x) by (nonlinear_arith);
    assert(spec_abs(v.y) * spec_abs(v.y) == v.y * v.y) by (nonlinear_arith);
    assert(spec_abs(v.z) * spec_abs(v.z) == v.z * v.z) by (nonlinear_arith);
    lemma_isqrt_square(spec_abs(v.x));
    lemma_isqrt_square(spec_abs(v.y));
    lemma_isqrt_square(spec_abs(v.z));
    lemma_isqrt_le(v.x * v.x, s);
    lemma_isqrt_le(v.y * v.y, s);
    lemma_isqrt_le(v.z * v.z, s);
}

/// Negating the left argument negates the inner product.
pub proof fn lemma_dot_neg(a: V3i, b: V3i)
    ensures
        spec_dot(spec_v_neg(a), b) == -spec_dot(a, b),
{
    assert((-a.x) * b.x == -(a.x * b.x)) by (nonlinear_arith);
    assert((-a.y) * b.y == -(a.y * b.y)) by (nonlinear_arith);
    assert((-a.z) * b.z == -(a.z * b.z)) by (nonlinear_arith);
    lemma_tdiv_neg(a.x * b.x + a.y * b.y + a.z * b.z, 65536);
}

/// A nonzero vector keeps a strictly positive inner product with its own
/// normalized copy: truncation never erases the whole projection.
pub proof fn lemma_norm_radial_pos(u: V3i)
    requires
        u.x != 0 || u.y != 0 || u.z != 0,
    ensures
        spec_dot(spec_v_norm(u), u) >= 1,
{
    let ax = spec_abs(u.x);
    let ay = spec_abs(u.y);
    let az = spec_abs(u.z);
    if ax >= ay && ax >= az {
        lemma_norm_dot_core(u.x, u.y, u.z);
    } else if ay >= az {
        lemma_norm_dot_core(u.y, u.x, u.z);
        assert(u.y * u.y + u.x * u.x + u.z * u.z == u.x * u.x + u.y * u.y + u.z * u.z);
    } else {
        lemma_norm_dot_core(u.z, u.x, u.y);
        assert(u.z * u.z + u.x * u.x + u.y * u.y == u.x * u.x + u.y * u.y + u.z * u.z);
    }
    let len = spec_v_len(u);
    assert(tdiv(u.x * SCALE, len) * u.x + tdiv(u.y * SCALE, len) * u.y + tdiv(u.z * SCALE, len)
        * u.z == tdiv(u.x * 65536, len) * u.x + tdiv(u.y * 65536, len) * u.y + tdiv(
        u.z * 65536,
        len,
    ) * u.z);
}

/// Core of the bound above, for the component of largest magnitude first.
proof fn lemma_norm_dot_core(a: int, b: int, c: int)
    requires
        spec_abs(b) <= spec_abs(a),
        spec_abs(c) <= spec_abs(a),
        spec_abs(a) >= 1,
    ensures
        isqrt(a * a + b * b + c * c) >= 1,
        tdiv(
            tdiv(a * 65536, isqrt(a * a + b * b + c * c)) * a + tdiv(
                b * 65536,
                isqrt(a * a + b * b + c * c),
            ) * b + tdiv(c * 65536, isqrt(a * a + b * b + c * c)) * c,
            65536,
        ) >= 1,
{
    let ma = spec_abs(a);
    let mb = spec_abs(b);
    let mc = spec_abs(c);
    let s = a * a + b * b + c * c;
    assert(a * a == ma * ma) by (nonlinear_arith)
        requires
            ma == a || ma == -a;
    assert(b * b == mb * mb) by (nonlinear_arith)
        requires
            mb == b || mb == -b;
    assert(c * c == mc * mc) by (nonlinear_arith)
        requires
            mc == c || mc == -c;
    crate::fixed::lemma_mul_le_mul(mb, mb, ma, ma);
    crate::fixed::lemma_mul_le_mul(mc, mc, ma, ma);
    assert(1 <= ma * ma) by (nonlinear_arith)
        requires
            ma >= 1;
    assert(0 <= mb * mb) by (nonlinear_arith)
        requires
            0 <= mb;
    assert(0 <= mc * mc) by (nonlinear_arith)
        requires
            0 <= mc;
    crate::fixed::lemma_isqrt_bounds(s);
    let len = isqrt(s);
    assert(len >= 1) by (nonlinear_arith)
        requires
            len >= 0,
            (len + 1) * (len + 1) > s,
            s >= 1;
    assert((2 * ma) * (2 * ma) > s) by (nonlinear_arith)
        requires
            s <= 3 * (ma * ma),
            ma >= 1;
    lemma_isqrt_lt(s, 2 * ma);
    let t = tdiv(ma * 65536, len);
    let na = tdiv(a * 65536, len);
    let nb = tdiv(b * 65536, len);
    let nc = tdiv(c * 65536, len);
    lemma_tdiv_sign(b * 65536, len);
    lemma_tdiv_sign(c * 65536, len);
    assert(nb * b >= 0) by (nonlinear_arith)
        requires
            (b >= 0 ==> nb >= 0) && (b <= 0 ==> nb <= 0);
    assert(nc * c >= 0) by (nonlinear_arith)
        requires
            (c >= 0 ==> nc >= 0) && (c <= 0 ==> nc <= 0);
    if a >= 0 {
        assert(na == t);
    } else {
        crate::fixed::lemma_tdiv_neg(ma * 65536, len);
        assert(a * 65536 == -(ma * 65536));
        assert(na == -t);
    }
    assert(na * a == t * ma) by (nonlinear_arith)
        requires
            (a >= 0 && na == t && ma == a) || (a < 0 && na == -t && ma == -a);
    if ma == 1 {
        assert(ma * ma == 1) by (nonlinear_arith)
            requires
                ma == 1;
        assert(s <= 3);
        lemma_isqrt_lt(s, 2);
        assert(len == 1);
        crate::fixed::lemma_tdiv_lower(65536, 1, 65536);
        crate::fixed::lemma_tdiv_bound(65536, 1, 65536);
        assert(t == 65536);
        assert(t * ma == 65536) by (nonlinear_arith)
            requires
                t == 65536,
                ma == 1;
    } else {
        assert(ma * 65536 >= len * 32768);
        crate::fixed::lemma_tdiv_lower(ma * 65536, len, 32768);
        crate::fixed::lemma_mul_le_mul(32768, 2, t, ma);
    }
    assert(na * a + nb * b + nc * c >= 65536);
    crate::fixed::lemma_tdiv_lower(na * a + nb * b + nc * c, 65536, 1);
}

/// Mathematical image of a ray.
pub ghost struct RayV {
    pub origin: V3i,
    pub direction: V3i,
}

/// The point a ray reaches at parameter `t`.
pub open spec fn spec_at(r: RayV, t: int) -> V3i {
    V3i {
        x: r.origin.x + tdiv(t * r.direction.x, SCALE as int),
        y: r.origin.y + tdiv(t * r.direction.y, SCALE as int),
        z: r.origin.z + tdiv(t * r.direction.z, SCALE as int),
    }
}

/// Origin and direction within the machine bounds of the renderer.
pub open spec fn ray_wf(r: RayV) -> bool {
    &&& pos_bounded(r.origin)
    &&& dir_bounded(r.direction)
}

/// A ray: an origin point and a direction vector.  The direction is not
/// required to be of unit length; consumers normalize it where the direction
/// matters.
#[derive(Clone, Copy, Debug, PartialEq, Eq, Structural)]
pub struct Ray {
    pub origin: Point3,
    pub direction: Vec3,
}

impl View for Ray {
    type V = RayV;

    open spec fn view(&self) -> RayV {
        RayV { origin: self.origin@, direction: self.direction@ }
    }
}

impl Ray {
    /// A ray with the given origin whose direction is the given one rescaled
    /// to (near) unit length.
    pub fn with_unit_direction(origin: &Point3, direction: &Vec3) -> (r: Ray)
        requires
            v_bounded(direction@, 0x4000000000000000),
        ensures
            r@.origin == origin@,
            r@.direction == spec_v_norm(direction@),
            v_bounded(r@.direction, SCALE as int),
    {
        Ray { origin: *origin, direction: direction.normalized() }
    }

    /// The point the ray reaches at parameter `t`.
    pub fn at(&self, t: i64) -> (p: Point3)
        requires
            ray_wf(self@),
            0 <= t <= T_MAX,
        ensures
            p@ == spec_at(self@, t as int),
    {
        proof {
            lemma_abs_mul_bound(t as int, self@.direction.x, T_MAX as int, DIR_MAX as int);
            lemma_abs_mul_bound(t as int, self@.direction.y, T_MAX as int, DIR_MAX as int);
            lemma_abs_mul_bound(t as int, self@.direction.z, T_MAX as int, DIR_MAX as int);
            lemma_tdiv_bound(t as int * self@.direction.x, 65536, 0x100000000000000);
            lemma_tdiv_bound(t as int * self@.direction.y, 65536, 0x100000000000000);
            lemma_tdiv_bound(t as int * self@.direction.z, 65536, 0x100000000000000);
        }
        let x: i128 = (self.origin.x as i128) + div_trunc(
            (t as i128) * (self.direction.x as i128),
            65536,
        );
        let y: i128 = (self.origin.y as i128) + div_trunc(
            (t as i128) * (self.direction.y as i128),
            65536,
        );
        let z: i128 = (self.origin.z as i128) + div_trunc(
            (t as i128) * (self.direction.z as i128),
            65536,
        );
        Vec3 { x: x as i64, y: y as i64, z: z as i64 }
    }
}

} // verus!

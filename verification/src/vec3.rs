//! Three-component fixed-point vectors and their mathematical model.

use vstd::prelude::*;
use crate::fixed::{fx_abs, fx_div, fx_div_s, fx_mul, fx_mul_s, isqrt64, sqrt_floor};

verus! {

/// A world-space vector in 16.16 fixed point.
#[derive(Clone, Copy, Debug, PartialEq, Eq, Structural)]
pub struct Vec3Fx {
    pub x: i64,
    pub y: i64,
    pub z: i64,
}

/// The mathematical model of a vector: unbounded integer components.
pub struct V3 {
    pub x: int,
    pub y: int,
    pub z: int,
}

impl View for Vec3Fx {
    type V = V3;

    open spec fn view(&self) -> V3 {
        V3 { x: self.x as int, y: self.y as int, z: self.z as int }
    }
}

impl Vec3Fx {
    /// Builds a vector from its three components.
    pub fn new(x: i64, y: i64, z: i64) -> (r: Vec3Fx)
        ensures
            r@ == (V3 { x: x as int, y: y as int, z: z as int }),
    {
        Vec3Fx { x, y, z }
    }
}

/// Every component's magnitude stays within `m`.
pub open spec fn v3_bounded(v: V3, m: int) -> bool {
    fx_abs(v.x) <= m && fx_abs(v.y) <= m && fx_abs(v.z) <= m
}

pub open spec fn v3_add_s(a: V3, b: V3) -> V3 {
    V3 { x: a.x + b.x, y: a.y + b.y, z: a.z + b.z }
}

pub open spec fn v3_sub_s(a: V3, b: V3) -> V3 {
    V3 { x: a.x - b.x, y: a.y - b.y, z: a.z - b.z }
}

pub open spec fn v3_neg_s(a: V3) -> V3 {
    V3 { x: -a.x, y: -a.y, z: -a.z }
}

pub open spec fn v3_scale_s(a: V3, s: int) -> V3 {
    V3 { x: fx_mul_s(a.x, s), y: fx_mul_s(a.y, s), z: fx_mul_s(a.z, s) }
}

pub open spec fn v3_dot_s(a: V3, b: V3) -> int {
    fx_mul_s(a.x, b.x) + fx_mul_s(a.y, b.y) + fx_mul_s(a.z, b.z)
}

pub open spec fn v3_cross_s(a: V3, b: V3) -> V3 {
    V3 {
        x: fx_mul_s(a.y, b.z) - fx_mul_s(a.z, b.y),
        y: fx_mul_s(a.z, b.x) - fx_mul_s(a.x, b.z),
        z: fx_mul_s(a.x, b.y) - fx_mul_s(a.y, b.x),
    }
}

/// Componentwise fixed-point division by a scalar.
pub open spec fn v3_div_s(a: V3, s: int) -> V3
    recommends
        s != 0,
{
    V3 { x: fx_div_s(a.x, s), y: fx_div_s(a.y, s), z: fx_div_s(a.z, s) }
}

/// The fixed-point Euclidean length of `a`.
pub open spec fn v3_len_s(a: V3) -> int {
    sqrt_floor((v3_dot_s(a, a) * 65536) as nat) as int
}

/// A fixed-point square is never negative.
pub proof fn lemma_fx_sq_nonneg(a: int)
    ensures
        fx_mul_s(a, a) >= 0,
{
    assert(a * a >= 0) by (nonlinear_arith);
}

/// The magnitude of a fixed-point product, against bounds on its factors.
pub proof fn lemma_fx_mul_s_bound(a: int, b: int, ba: int, bb: int)
    requires
        fx_abs(a) <= ba,
        fx_abs(b) <= bb,
    ensures
        fx_abs(fx_mul_s(a, b)) * 65536 <= ba * bb,
{
    assert(fx_abs(a * b) == fx_abs(a) * fx_abs(b)) by (nonlinear_arith);
    assert(fx_abs(a) * fx_abs(b) <= ba * bb) by (nonlinear_arith)
        requires
            0 <= fx_abs(a) <= ba,
            0 <= fx_abs(b) <= bb,
    ;
    let n = fx_abs(a * b);
    assert((n / 65536) * 65536 <= n) by (nonlinear_arith)
        requires
            n >= 0,
    ;
}

/// The magnitude of a fixed-point quotient times its divisor is bounded
/// by the dividend.
pub proof fn lemma_fx_div_s_bound(a: int, b: int)
    requires
        b != 0,
    ensures
        fx_abs(fx_div_s(a, b)) * fx_abs(b) <= fx_abs(a) * 65536,
{
    let n = fx_abs(a * 65536);
    let d = fx_abs(b);
    assert(fx_abs(a * 65536) == fx_abs(a) * 65536) by (nonlinear_arith);
    assert((n / d) * d <= n) by (nonlinear_arith)
        requires
            n >= 0,
            d > 0,
    ;
}

/// The magnitude of a dot product, against componentwise bounds.
pub proof fn lemma_v3_dot_s_bound(a: V3, b: V3, m: int, n: int)
    requires
        v3_bounded(a, m),
        v3_bounded(b, n),
    ensures
        fx_abs(v3_dot_s(a, b)) * 65536 <= 3 * m * n,
{
    lemma_fx_mul_s_bound(a.x, b.x, m, n);
    lemma_fx_mul_s_bound(a.y, b.y, m, n);
    lemma_fx_mul_s_bound(a.z, b.z, m, n);
    assert(fx_abs(v3_dot_s(a, b)) * 65536 <= 3 * m * n) by (nonlinear_arith)
        requires
            fx_abs(fx_mul_s(a.x, b.x)) * 65536 <= m * n,
            fx_abs(fx_mul_s(a.y, b.y)) * 65536 <= m * n,
            fx_abs(fx_mul_s(a.z, b.z)) * 65536 <= m * n,
            v3_dot_s(a, b) == fx_mul_s(a.x, b.x) + fx_mul_s(a.y, b.y) + fx_mul_s(a.z, b.z),
    ;
}

/// The magnitude of each cross-product component, against bounds.
pub proof fn lemma_v3_cross_s_bound(a: V3, b: V3, m: int, n: int)
    requires
        v3_bounded(a, m),
        v3_bounded(b, n),
    ensures
        v3_bounded(v3_cross_s(a, b), (2 * m * n) / 65536 + 1),
{
    lemma_fx_mul_s_bound(a.y, b.z, m, n);
    lemma_fx_mul_s_bound(a.z, b.y, m, n);
    lemma_fx_mul_s_bound(a.z, b.x, m, n);
    lemma_fx_mul_s_bound(a.x, b.z, m, n);
    lemma_fx_mul_s_bound(a.x, b.y, m, n);
    lemma_fx_mul_s_bound(a.y, b.x, m, n);
    let c = v3_cross_s(a, b);
    assert(fx_abs(c.x) <= (2 * m * n) / 65536 + 1) by (nonlinear_arith)
        requires
            fx_abs(c.x) * 65536 <= 2 * (m * n),
    ;
    assert(fx_abs(c.y) <= (2 * m * n) / 65536 + 1) by (nonlinear_arith)
        requires
            fx_abs(c.y) * 65536 <= 2 * (m * n),
    ;
    assert(fx_abs(c.z) <= (2 * m * n) / 65536 + 1) by (nonlinear_arith)
        requires
            fx_abs(c.z) * 65536 <= 2 * (m * n),
    ;
}

/// The magnitude of each scaled component, against bounds.
pub proof fn lemma_v3_scale_s_bound(a: V3, s: int, m: int, n: int)
    requires
        v3_bounded(a, m),
        fx_abs(s) <= n,
    ensures
        v3_bounded(v3_scale_s(a, s), (m * n) / 65536 + 1),
{
    lemma_fx_mul_s_bound(a.x, s, m, n);
    lemma_fx_mul_s_bound(a.y, s, m, n);
    lemma_fx_mul_s_bound(a.z, s, m, n);
    let c = v3_scale_s(a, s);
    assert(fx_abs(c.x) <= (m * n) / 65536 + 1) by (nonlinear_arith)
        requires
            fx_abs(c.x) * 65536 <= m * n,
    ;
    assert(fx_abs(c.y) <= (m * n) / 65536 + 1) by (nonlinear_arith)
        requires
            fx_abs(c.y) * 65536 <= m * n,
    ;
    assert(fx_abs(c.z) <= (m * n) / 65536 + 1) by (nonlinear_arith)
        requires
            fx_abs(c.z) * 65536 <= m * n,
    ;
}

/// A dot product of a vector with itself is never negative.
pub proof fn lemma_v3_dot_self_nonneg(a: V3)
    ensures
        v3_dot_s(a, a) >= 0,
{
    lemma_fx_sq_nonneg(a.x);
    lemma_fx_sq_nonneg(a.y);
    lemma_fx_sq_nonneg(a.z);
}

pub fn v3_add(a: Vec3Fx, b: Vec3Fx) -> (r: Vec3Fx)
    requires
        v3_bounded(a@, 0x1000_0000_0000),
        v3_bounded(b@, 0x1000_0000_0000),
    ensures
        r@ == v3_add_s(a@, b@),
{
    Vec3Fx { x: a.x + b.x, y: a.y + b.y, z: a.z + b.z }
}

pub fn v3_sub(a: Vec3Fx, b: Vec3Fx) -> (r: Vec3Fx)
    requires
        v3_bounded(a@, 0x1000_0000_0000),
        v3_bounded(b@, 0x1000_0000_0000),
    ensures
        r@ == v3_sub_s(a@, b@),
{
    Vec3Fx { x: a.x - b.x, y: a.y - b.y, z: a.z - b.z }
}

pub fn v3_neg(a: Vec3Fx) -> (r: Vec3Fx)
    requires
        v3_bounded(a@, 0x1000_0000_0000),
    ensures
        r@ == v3_neg_s(a@),
{
    Vec3Fx { x: -a.x, y: -a.y, z: -a.z }
}

pub fn v3_scale(a: Vec3Fx, s: i64) -> (r: Vec3Fx)
    requires
        v3_bounded(a@, 0x40_0000),
        fx_abs(s as int) <= 0x40_0000,
    ensures
        r@ == v3_scale_s(a@, s as int),
{
    Vec3Fx { x: fx_mul(a.x, s), y: fx_mul(a.y, s), z: fx_mul(a.z, s) }
}

pub fn v3_dot(a: Vec3Fx, b: Vec3Fx) -> (r: i64)
    requires
        v3_bounded(a@, 0x800_0000),
        v3_bounded(b@, 0x800_0000),
    ensures
        r == v3_dot_s(a@, b@),
{
    proof {
        lemma_fx_mul_s_bound(a@.x, b@.x, 0x800_0000, 0x800_0000);
        lemma_fx_mul_s_bound(a@.y, b@.y, 0x800_0000, 0x800_0000);
        lemma_fx_mul_s_bound(a@.z, b@.z, 0x800_0000, 0x800_0000);
    }
    fx_mul(a.x, b.x) + fx_mul(a.y, b.y) + fx_mul(a.z, b.z)
}

pub fn v3_cross(a: Vec3Fx, b: Vec3Fx) -> (r: Vec3Fx)
    requires
        v3_bounded(a@, 0x40_0000),
        v3_bounded(b@, 0x40_0000),
    ensures
        r@ == v3_cross_s(a@, b@),
{
    proof {
        lemma_fx_mul_s_bound(a@.y, b@.z, 0x40_0000, 0x40_0000);
        lemma_fx_mul_s_bound(a@.z, b@.y, 0x40_0000, 0x40_0000);
        lemma_fx_mul_s_bound(a@.z, b@.x, 0x40_0000, 0x40_0000);
        lemma_fx_mul_s_bound(a@.x, b@.z, 0x40_0000, 0x40_0000);
        lemma_fx_mul_s_bound(a@.x, b@.y, 0x40_0000, 0x40_0000);
        lemma_fx_mul_s_bound(a@.y, b@.x, 0x40_0000, 0x40_0000);
    }
    Vec3Fx {
        x: fx_mul(a.y, b.z) - fx_mul(a.z, b.y),
        y: fx_mul(a.z, b.x) - fx_mul(a.x, b.z),
        z: fx_mul(a.x, b.y) - fx_mul(a.y, b.x),
    }
}

/// The fixed-point length of a vector.
pub fn v3_len(a: Vec3Fx) -> (r: i64)
    requires
        v3_bounded(a@, 0x200_0000),
    ensures
        r == v3_len_s(a@),
        r >= 0,
{
    proof {
        lemma_v3_dot_self_nonneg(a@);
        lemma_v3_dot_s_bound(a@, a@, 0x200_0000, 0x200_0000);
    }
    let d: i64 = v3_dot(a, a);
    let raw: u64 = (d as u64) * 65536;
    let r: u64 = isqrt64(raw);
    proof {
        assert(r * r <= raw);
        assert(r < 0x8000_0000) by (nonlinear_arith)
            requires
                r * r <= raw,
                raw < 0x4000_0000_0000_0000,
        ;
    }
    r as i64
}

} // verus!

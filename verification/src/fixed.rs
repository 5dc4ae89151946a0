//! Signed 16.16 fixed-point arithmetic.
//!
//! World positions, directions and scales are carried as `i64` values
//! holding 65536 times the real quantity. Multiplication and division
//! truncate toward zero, the way the host's native float-to-int casts do.

use vstd::prelude::*;

verus! {

/// One world unit in fixed-point form.
pub const FX_ONE: i64 = 65536;

/// Largest magnitude either factor of a product may have.
pub const FX_MUL_LIM: i64 = 0x80_0000_0000;

/// Largest magnitude a dividend may have.
pub const FX_DIV_LIM: i64 = 0x4000_0000_0000;

/// Magnitude of an integer.
pub open spec fn fx_abs(a: int) -> int {
    if a < 0 {
        -a
    } else {
        a
    }
}

/// Division truncating toward zero, the rounding `i64` division performs.
pub open spec fn tdiv(n: int, d: int) -> int
    recommends
        d != 0,
{
    if (n < 0) != (d < 0) {
        -(fx_abs(n) / fx_abs(d))
    } else {
        fx_abs(n) / fx_abs(d)
    }
}

/// The fixed-point product of `a` and `b`.
pub open spec fn fx_mul_s(a: int, b: int) -> int {
    tdiv(a * b, 65536)
}

/// The fixed-point quotient of `a` by `b`.
pub open spec fn fx_div_s(a: int, b: int) -> int
    recommends
        b != 0,
{
    tdiv(a * 65536, b)
}

/// The magnitude of an `i64` away from the minimum, as a `u64`.
fn abs_u64(a: i64) -> (r: u64)
    requires
        a != i64::MIN,
    ensures
        r == fx_abs(a as int),
{
    if a < 0 {
        (-a) as u64
    } else {
        a as u64
    }
}

/// Fixed-point multiply: `(a * b) / 65536`, truncated toward zero.
pub fn fx_mul(a: i64, b: i64) -> (r: i64)
    requires
        -FX_MUL_LIM <= a <= FX_MUL_LIM,
        -FX_MUL_LIM <= b <= FX_MUL_LIM,
    ensures
        r == fx_mul_s(a as int, b as int),
        fx_abs(r as int) * 65536 <= fx_abs(a as int) * fx_abs(b as int),
{
    let neg: bool = (a < 0) != (b < 0);
    let ma: u64 = abs_u64(a);
    let mb: u64 = abs_u64(b);
    proof {
        assert(ma * mb <= 0x80_0000_0000 * 0x80_0000_0000) by (nonlinear_arith)
            requires
                ma <= 0x80_0000_0000,
                mb <= 0x80_0000_0000,
        ;
    }
    let p: u128 = (ma as u128) * (mb as u128);
    proof {
        assert((a as int) * (b as int) == if neg {
            -((ma as int) * (mb as int))
        } else {
            (ma as int) * (mb as int)
        }) by (nonlinear_arith)
            requires
                ma == fx_abs(a as int),
                mb == fx_abs(b as int),
                neg == ((a < 0) != (b < 0)),
        ;
    }
    let q: u128 = p / 65536;
    let qi: i64 = q as i64;
    if neg {
        -qi
    } else {
        qi
    }
}

/// Fixed-point divide: `(a * 65536) / b`, truncated toward zero.
pub fn fx_div(a: i64, b: i64) -> (r: i64)
    requires
        -FX_DIV_LIM <= a <= FX_DIV_LIM,
        b != 0,
        b != i64::MIN,
    ensures
        r == fx_div_s(a as int, b as int),
        fx_abs(r as int) * fx_abs(b as int) <= fx_abs(a as int) * 65536,
{
    let neg: bool = (a < 0) != (b < 0);
    let ma: u64 = abs_u64(a);
    let mb: u64 = abs_u64(b);
    let p: u128 = (ma as u128) * 65536;
    let q: u128 = p / (mb as u128);
    proof {
        assert((a as int) * 65536 == if a < 0 {
            -((ma as int) * 65536)
        } else {
            (ma as int) * 65536
        }) by (nonlinear_arith)
            requires
                ma == fx_abs(a as int),
        ;
        assert(q * mb <= p) by (nonlinear_arith)
            requires
                mb > 0,
                q == (p as int) / (mb as int),
        ;
        assert(q <= p) by (nonlinear_arith)
            requires
                mb >= 1,
                q == (p as int) / (mb as int),
        ;
    }
    let qi: i64 = q as i64;
    if neg {
        -qi
    } else {
        qi
    }
}

/// The integer square-root floor, defined by counting up.
pub open spec fn sqrt_floor(x: nat) -> nat
    decreases x,
{
    if x == 0 {
        0
    } else {
        let r = sqrt_floor((x - 1) as nat);
        if (r + 1) * (r + 1) <= x {
            r + 1
        } else {
            r
        }
    }
}

/// `sqrt_floor` brackets its argument between consecutive squares.
pub proof fn lemma_sqrt_floor_bracket(x: nat)
    ensures
        sqrt_floor(x) * sqrt_floor(x) <= x,
        x < (sqrt_floor(x) + 1) * (sqrt_floor(x) + 1),
    decreases x,
{
    if x > 0 {
        lemma_sqrt_floor_bracket((x - 1) as nat);
        let r = sqrt_floor((x - 1) as nat);
        assert(r * r <= x - 1);
        assert(x - 1 < (r + 1) * (r + 1));
        if (r + 1) * (r + 1) <= x {
            assert(sqrt_floor(x) == r + 1);
            assert(x <= (r + 1) * (r + 1));
            assert((r + 1) * (r + 1) < (r + 2) * (r + 2)) by (nonlinear_arith);
            assert(x < (r + 2) * (r + 2));
        } else {
            assert(sqrt_floor(x) == r);
            assert(r * r <= x);
            assert(x < (r + 1) * (r + 1));
        }
        assert(sqrt_floor(x) * sqrt_floor(x) <= x);
        assert(x < (sqrt_floor(x) + 1) * (sqrt_floor(x) + 1));
    } else {
        assert(sqrt_floor(x) == 0);
        assert(sqrt_floor(x) * sqrt_floor(x) <= x) by (nonlinear_arith)
            requires
                x == 0,
                sqrt_floor(x) == 0,
        ;
        assert(x < (sqrt_floor(x) + 1) * (sqrt_floor(x) + 1)) by (nonlinear_arith)
            requires
                x == 0,
                sqrt_floor(x) == 0,
        ;
    }
}

/// Any value bracketed between consecutive squares is the square-root floor.
pub proof fn lemma_sqrt_floor_unique(x: nat, r: nat)
    requires
        r * r <= x,
        x < (r + 1) * (r + 1),
    ensures
        r == sqrt_floor(x),
{
    lemma_sqrt_floor_bracket(x);
    let s = sqrt_floor(x);
    if r < s {
        assert((r + 1) * (r + 1) <= s * s) by (nonlinear_arith)
            requires
                r + 1 <= s,
        ;
    }
    if s < r {
        assert((s + 1) * (s + 1) <= r * r) by (nonlinear_arith)
            requires
                s + 1 <= r,
        ;
    }
}

/// Integer square root by bisection.
pub fn isqrt64(x: u64) -> (r: u64)
    requires
        x < 0x4000_0000_0000_0000,
    ensures
        r == sqrt_floor(x as nat),
        r * r <= x,
        x < (r + 1) * (r + 1),
{
    let mut lo: u64 = 0;
    let mut hi: u64 = 0x8000_0000;
    proof {
        assert(hi * hi > x);
    }
    while lo + 1 < hi
        invariant
            lo < hi <= 0x8000_0000,
            lo * lo <= x,
            x < hi * hi,
        decreases hi - lo,
    {
        let mid: u64 = lo + (hi - lo) / 2;
        proof {
            assert(mid * mid <= 0x8000_0000 * 0x8000_0000) by (nonlinear_arith)
                requires
                    mid <= 0x8000_0000,
            ;
        }
        if mid * mid <= x {
            lo = mid;
        } else {
            hi = mid;
        }
    }
    proof {
        lemma_sqrt_floor_unique(x as nat, lo as nat);
    }
    lo
}

} // verus!

//! Aim-ray intersection: where a player's look ray strikes a screen.
//!
//! All quantities are 16.16 fixed point. The caller supplies the aim
//! direction and the screen's plane normal as vectors; turning the stored
//! pitch/yaw angles into those vectors takes trigonometry, which the
//! unverified shell does in floating point before calling in.

use vstd::prelude::*;
use crate::error::Error;
use crate::fixed::{
    fx_abs, fx_div, fx_div_s, fx_mul, fx_mul_s, lemma_sqrt_floor_bracket, FX_ONE,
};
use crate::vec3::{
    lemma_fx_div_s_bound, lemma_fx_mul_s_bound, lemma_fx_sq_nonneg, lemma_v3_cross_s_bound,
    lemma_v3_dot_s_bound, lemma_v3_dot_self_nonneg, lemma_v3_scale_s_bound, v3_add, v3_add_s,
    v3_bounded, v3_cross, v3_cross_s, v3_div_s, v3_dot, v3_dot_s, v3_len, v3_len_s, v3_neg,
    v3_neg_s, v3_scale, v3_scale_s, v3_sub, v3_sub_s, Vec3Fx, V3,
};

verus! {

/// Farthest a screen may be hit from, in fixed world units (ten units).
pub const MAX_REACH: i64 = 655360;

/// Base quad width before scaling: two world units.
pub const MODEL_WIDTH: i64 = 131072;

/// Base quad height before scaling: one world unit.
pub const MODEL_HEIGHT: i64 = 65536;

/// Shortest basis length accepted before normalizing (half a unit);
/// below it the screen is degenerate for picking (lying flat).
pub const MIN_BASIS: i64 = 32768;

/// Positions handed to the engine stay within 256 world units. The
/// bound is a fixed-point modelling limit, not a rule of the world: it
/// keeps every intermediate product of the intersection inside `i64`.
/// Doubling it needs a fresh pass over the overflow margins below.
pub const POS_LIM: i64 = 0x100_0000;

/// Direction and normal vectors stay within 16 world units, far above
/// the unit vectors the shell derives; same modelling role as `POS_LIM`.
pub const DIR_LIM: i64 = 0x10_0000;

/// Screen widths and heights stay within 64 world units; same modelling
/// role as `POS_LIM`.
pub const SIZE_LIM: i64 = 0x40_0000;

/// A hit on the visible surface, as normalized coordinates in
/// `[0, FX_ONE]` measured from the screen's top-left corner.
#[derive(Clone, Copy, Debug, PartialEq, Eq, Structural)]
pub struct ScreenHit {
    pub nx: i64,
    pub ny: i64,
}

/// The world's up axis.
pub open spec fn y_axis_s() -> V3 {
    V3 { x: 0, y: 65536, z: 0 }
}

/// Normalization: `None` when the vector is too short to carry a
/// direction, otherwise each component divided by the fixed-point length.
pub open spec fn unit_s(v: V3) -> Option<V3> {
    let l = v3_len_s(v);
    if l < MIN_BASIS {
        None
    } else {
        Some(v3_div_s(v, l))
    }
}

/// The whole intersection policy: `None` stands for "not looking at a
/// screen". The ray must face the front of the plane, strike it within
/// reach, and the hit must fall inside the scaled quad.
pub open spec fn aim_hit_s(eye: V3, dir: V3, pos: V3, normal: V3, w: int, h: int) -> Option<
    (int, int),
> {
    let den = v3_dot_s(dir, normal);
    if den >= 0 {
        None
    } else {
        let toi = fx_div_s(v3_dot_s(v3_sub_s(pos, eye), normal), den);
        if toi <= 0 || toi > MAX_REACH {
            None
        } else {
            let hit = v3_add_s(eye, v3_scale_s(dir, toi));
            match unit_s(v3_cross_s(normal, y_axis_s())) {
                None => None,
                Some(r0) => match unit_s(v3_cross_s(r0, normal)) {
                    None => None,
                    Some(up) => {
                        let right = v3_neg_s(r0);
                        let top_left = v3_add_s(
                            v3_sub_s(pos, v3_scale_s(right, w / 2)),
                            v3_scale_s(up, h / 2),
                        );
                        let diff = v3_sub_s(hit, top_left);
                        let x = fx_div_s(v3_dot_s(diff, right), w);
                        let y = -fx_div_s(v3_dot_s(diff, up), h);
                        if x < 0 || x > FX_ONE || y < 0 || y > FX_ONE {
                            None
                        } else {
                            Some((x, y))
                        }
                    },
                },
            }
        }
    }
}

/// After normalizing, every component's magnitude stays within two units.
proof fn lemma_unit_comp_bound(c: int, v: V3, l: int)
    requires
        v3_bounded(v, 0x200_0000),
        l == v3_len_s(v),
        l >= MIN_BASIS,
        c == v.x || c == v.y || c == v.z,
    ensures
        fx_abs(fx_div_s(c, l)) <= 131072,
{
    lemma_fx_sq_nonneg(v.x);
    lemma_fx_sq_nonneg(v.y);
    lemma_fx_sq_nonneg(v.z);
    let dot = v3_dot_s(v, v);
    assert(fx_mul_s(c, c) == (c * c) / 65536) by (nonlinear_arith);
    assert(dot >= (c * c) / 65536);
    lemma_sqrt_floor_bracket((dot * 65536) as nat);
    assert((l + 1) * (l + 1) > dot * 65536);
    assert(dot * 65536 >= ((c * c) / 65536) * 65536) by (nonlinear_arith)
        requires
            dot >= (c * c) / 65536,
    ;
    assert(((c * c) / 65536) * 65536 > c * c - 65536) by (nonlinear_arith);
    assert(c * c < (l + 1) * (l + 1) + 65536);
    assert(fx_abs(c) <= l + 257) by (nonlinear_arith)
        requires
            c * c < (l + 1) * (l + 1) + 65536,
            l >= 32768,
    ;
    lemma_fx_div_s_bound(c, l);
    assert(fx_abs(fx_div_s(c, l)) <= 131072) by (nonlinear_arith)
        requires
            fx_abs(fx_div_s(c, l)) * fx_abs(l) <= fx_abs(c) * 65536,
            fx_abs(c) <= l + 257,
            l >= 32768,
    ;
}

/// Normalizes a basis vector, refusing one too short to carry a direction.
fn v3_unit(v: Vec3Fx) -> (r: Option<Vec3Fx>)
    requires
        v3_bounded(v@, 0x200_0000),
    ensures
        match r {
            Some(u) => unit_s(v@) == Some(u@) && v3_bounded(u@, 131072),
            None => unit_s(v@) is None,
        },
{
    let l = v3_len(v);
    if l < MIN_BASIS {
        None
    } else {
        proof {
            lemma_unit_comp_bound(v@.x, v@, l as int);
            lemma_unit_comp_bound(v@.y, v@, l as int);
            lemma_unit_comp_bound(v@.z, v@, l as int);
        }
        Some(Vec3Fx { x: fx_div(v.x, l), y: fx_div(v.y, l), z: fx_div(v.z, l) })
    }
}

/// Half of a positive length.
fn half_pos(a: i64) -> (r: i64)
    requires
        a > 0,
    ensures
        r == (a as int) / 2,
        0 <= r < a,
{
    ((a as u64) / 2) as i64
}

/// Intersects the aim ray with a screen's plane and maps the hit into
/// normalized top-left coordinates.
///
/// A parallel ray, a ray facing the screen's back, a hit beyond reach and
/// a hit outside the quad are all "not looking at a screen".
pub fn intersect_screen(eye: Vec3Fx, dir: Vec3Fx, pos: Vec3Fx, normal: Vec3Fx, w: i64, h: i64) -> (
    r: Result<ScreenHit, Error>)
    requires
        v3_bounded(eye@, POS_LIM as int),
        v3_bounded(pos@, POS_LIM as int),
        v3_bounded(dir@, DIR_LIM as int),
        v3_bounded(normal@, DIR_LIM as int),
        0 < w <= SIZE_LIM,
        0 < h <= SIZE_LIM,
    ensures
        match r {
            Ok(hit) => aim_hit_s(eye@, dir@, pos@, normal@, w as int, h as int) == Some(
                (hit.nx as int, hit.ny as int),
            ) && 0 <= hit.nx <= FX_ONE && 0 <= hit.ny <= FX_ONE,
            Err(e) => e == Error::GeometryError && aim_hit_s(
                eye@,
                dir@,
                pos@,
                normal@,
                w as int,
                h as int,
            ) is None,
        },
        v3_dot_s(dir@, normal@) >= 0 ==> r is Err,
{
    proof {
        lemma_v3_dot_s_bound(dir@, normal@, DIR_LIM as int, DIR_LIM as int);
    }
    let den = v3_dot(dir, normal);
    if den >= 0 {
        return Err(Error::GeometryError);
    }
    let rel = v3_sub(pos, eye);
    proof {
        lemma_v3_dot_s_bound(rel@, normal@, 0x200_0000, DIR_LIM as int);
    }
    let num = v3_dot(rel, normal);
    let toi = fx_div(num, den);
    if toi <= 0 || toi > MAX_REACH {
        return Err(Error::GeometryError);
    }
    proof {
        lemma_v3_scale_s_bound(dir@, toi as int, DIR_LIM as int, MAX_REACH as int);
    }
    let hitp = v3_add(eye, v3_scale(dir, toi));
    let yaxis = Vec3Fx { x: 0, y: 65536, z: 0 };
    proof {
        lemma_v3_cross_s_bound(normal@, yaxis@, DIR_LIM as int, 65536);
    }
    let c0 = v3_cross(normal, yaxis);
    let r0 = match v3_unit(c0) {
        Some(u) => u,
        None => {
            return Err(Error::GeometryError);
        },
    };
    proof {
        lemma_v3_cross_s_bound(r0@, normal@, 131072, DIR_LIM as int);
    }
    let c1 = v3_cross(r0, normal);
    let up = match v3_unit(c1) {
        Some(u) => u,
        None => {
            return Err(Error::GeometryError);
        },
    };
    let right = v3_neg(r0);
    let halfw = half_pos(w);
    let halfh = half_pos(h);
    proof {
        lemma_v3_scale_s_bound(right@, halfw as int, 131072, SIZE_LIM as int);
        lemma_v3_scale_s_bound(up@, halfh as int, 131072, SIZE_LIM as int);
    }
    let top_left = v3_add(v3_sub(pos, v3_scale(right, halfw)), v3_scale(up, halfh));
    let diff = v3_sub(hitp, top_left);
    proof {
        lemma_v3_dot_s_bound(diff@, right@, 0x800_0000, 131072);
        lemma_v3_dot_s_bound(diff@, up@, 0x800_0000, 131072);
    }
    let x = fx_div(v3_dot(diff, right), w);
    let yq = fx_div(v3_dot(diff, up), h);
    let y = -yq;
    if x < 0 || x > FX_ONE || y < 0 || y > FX_ONE {
        return Err(Error::GeometryError);
    }
    Ok(ScreenHit { nx: x, ny: y })
}

/// Maps a normalized hit to pixel coordinates of the browser surface's
/// current reported size.
pub fn hit_to_pixels(hit: ScreenHit, bw: u32, bh: u32) -> (r: (u32, u32))
    requires
        0 <= hit.nx <= FX_ONE,
        0 <= hit.ny <= FX_ONE,
    ensures
        r.0 == (hit.nx * bw) / 65536,
        r.1 == (hit.ny * bh) / 65536,
{
    proof {
        assert((hit.nx as u64) * (bw as u64) <= 65536 * 0xFFFF_FFFF) by (nonlinear_arith)
            requires
                hit.nx as u64 <= 65536,
                bw as u64 <= 0xFFFF_FFFF,
        ;
        assert((hit.ny as u64) * (bh as u64) <= 65536 * 0xFFFF_FFFF) by (nonlinear_arith)
            requires
                hit.ny as u64 <= 65536,
                bh as u64 <= 0xFFFF_FFFF,
        ;
    }
    let px64: u64 = ((hit.nx as u64) * (bw as u64)) / 65536;
    let py64: u64 = ((hit.ny as u64) * (bh as u64)) / 65536;
    (px64 as u32, py64 as u32)
}

/// The displayed quad size: the live scale applied to the base quad.
pub fn screen_size(scale: i64) -> (r: (i64, i64))
    requires
        0 < scale <= 0x10_0000,
    ensures
        r.0 == fx_mul_s(scale as int, MODEL_WIDTH as int),
        r.1 == fx_mul_s(scale as int, MODEL_HEIGHT as int),
        r.0 == 2 * scale,
        r.1 == scale,
        0 < r.0 <= SIZE_LIM,
        0 < r.1 <= SIZE_LIM,
{
    let w = fx_mul(scale, MODEL_WIDTH);
    let h = fx_mul(scale, MODEL_HEIGHT);
    proof {
        assert(fx_mul_s(scale as int, 131072) == 2 * scale) by (nonlinear_arith)
            requires
                0 < scale,
        ;
        assert(fx_mul_s(scale as int, 65536) == scale) by (nonlinear_arith)
            requires
                0 < scale,
        ;
    }
    (w, h)
}

/// Resolves an aim query end to end: the screen's live scale gives the
/// quad size, the ray is intersected, and a hit becomes browser pixel
/// coordinates at the surface's current reported size.
pub fn resolve_aim_click(
    eye: Vec3Fx,
    dir: Vec3Fx,
    pos: Vec3Fx,
    normal: Vec3Fx,
    scale: i64,
    bw: u32,
    bh: u32,
) -> (r: Result<(u32, u32), Error>)
    requires
        v3_bounded(eye@, POS_LIM as int),
        v3_bounded(pos@, POS_LIM as int),
        v3_bounded(dir@, DIR_LIM as int),
        v3_bounded(normal@, DIR_LIM as int),
        0 < scale <= 0x10_0000,
    ensures
        match r {
            Ok(pxy) => aim_hit_s(eye@, dir@, pos@, normal@, 2 * scale, scale as int) matches Some(
                nxy,
            ) && pxy.0 == (nxy.0 * bw) / 65536 && pxy.1 == (nxy.1 * bh) / 65536,
            Err(e) => e == Error::GeometryError && aim_hit_s(
                eye@,
                dir@,
                pos@,
                normal@,
                2 * scale,
                scale as int,
            ) is None,
        },
        v3_dot_s(dir@, normal@) >= 0 ==> r is Err,
{
    let (w, h) = screen_size(scale);
    let hit = match intersect_screen(eye, dir, pos, normal, w, h) {
        Ok(hh) => hh,
        Err(e) => {
            return Err(e);
        },
    };
    Ok(hit_to_pixels(hit, bw, bh))
}

/// Fixed-point multiplication by one (or minus one, or zero) is exact,
/// whatever the sign of the other factor.
proof fn lemma_fx_mul_unit(a: int)
    ensures
        fx_mul_s(a, 65536) == a,
        fx_mul_s(65536, a) == a,
        fx_mul_s(a, -65536) == -a,
        fx_mul_s(-65536, a) == -a,
        fx_mul_s(a, 0) == 0,
        fx_mul_s(0, a) == 0,
{
    if a >= 0 {
        assert(a * 65536 >= 0 && fx_abs(a * 65536) == a * 65536) by (nonlinear_arith)
            requires
                a >= 0,
        ;
        assert((a * 65536) / 65536 == a) by (nonlinear_arith);
        assert(a * -65536 <= 0 && fx_abs(a * -65536) == a * 65536) by (nonlinear_arith)
            requires
                a >= 0,
        ;
    } else {
        assert(a * 65536 < 0 && fx_abs(a * 65536) == (-a) * 65536) by (nonlinear_arith)
            requires
                a < 0,
        ;
        assert(((-a) * 65536) / 65536 == -a) by (nonlinear_arith);
        assert(a * -65536 > 0 && fx_abs(a * -65536) == (-a) * 65536) by (nonlinear_arith)
            requires
                a < 0,
        ;
    }
    assert(65536 * a == a * 65536 && -65536 * a == a * -65536) by (nonlinear_arith);
    assert(fx_mul_s(a, 0) == 0 && fx_mul_s(0, a) == 0) by (nonlinear_arith);
}

/// A screen facing the ray origin, shot along its plane normal through
/// its center from within reach, reads exactly the middle of the quad:
/// normalized coordinates one half by one half. Holds for every screen
/// position, every distance up to the reach limit and every even scale
/// (an odd scale splits its one-pixel-odd half height, so the centre
/// row itself falls between fixed-point cells).
pub proof fn lemma_center_shot(pos: V3, d: int, scale: int)
    requires
        0 < d <= MAX_REACH,
        0 < scale,
        scale % 2 == 0,
    ensures
        aim_hit_s(
            V3 { x: pos.x, y: pos.y, z: pos.z - d },
            V3 { x: 0, y: 0, z: 65536 },
            pos,
            V3 { x: 0, y: 0, z: -65536 },
            2 * scale,
            scale,
        ) == Some((32768int, 32768int)),
{
    let eye = V3 { x: pos.x, y: pos.y, z: pos.z - d };
    let dir = V3 { x: 0, y: 0, z: 65536 };
    let n = V3 { x: 0, y: 0, z: -65536 };
    lemma_fx_mul_unit(65536);
    lemma_fx_mul_unit(d);
    lemma_fx_mul_unit(0);
    assert(v3_dot_s(dir, n) == -65536);
    assert(v3_sub_s(pos, eye) == (V3 { x: 0, y: 0, z: d }));
    assert(v3_dot_s(v3_sub_s(pos, eye), n) == -d);
    assert(fx_div_s(-d, -65536) == d) by {
        assert(fx_abs((-d) * 65536) == d * 65536) by (nonlinear_arith)
            requires
                d > 0,
        ;
        assert((d * 65536) / 65536 == d) by (nonlinear_arith);
        assert((-d) * 65536 < 0) by (nonlinear_arith)
            requires
                d > 0,
        ;
    }
    let toi = fx_div_s(v3_dot_s(v3_sub_s(pos, eye), n), v3_dot_s(dir, n));
    assert(toi == d);
    assert(v3_scale_s(dir, d) == (V3 { x: 0, y: 0, z: d }));
    let hit = v3_add_s(eye, v3_scale_s(dir, toi));
    assert(hit == pos);
    let c0 = v3_cross_s(n, y_axis_s());
    assert(c0 == (V3 { x: 65536, y: 0, z: 0 }));
    assert(v3_dot_s(c0, c0) == 65536);
    assert(v3_len_s(c0) == 65536) by {
        assert(65536nat * 65536nat == 4294967296 && 65537nat * 65537nat == 4295098369)
            by (nonlinear_arith);
        crate::fixed::lemma_sqrt_floor_unique((65536 * 65536) as nat, 65536nat);
    }
    assert(fx_div_s(65536, 65536) == 65536) by {
        assert(fx_abs(65536int * 65536) == 65536int * 65536) by (nonlinear_arith);
    }
    assert(fx_div_s(0, 65536) == 0);
    let r0 = v3_div_s(c0, 65536);
    assert(r0 == (V3 { x: 65536, y: 0, z: 0 }));
    assert(unit_s(c0) == Some(r0));
    let c1 = v3_cross_s(r0, n);
    assert(c1 == (V3 { x: 0, y: 65536, z: 0 }));
    assert(v3_dot_s(c1, c1) == 65536);
    assert(v3_len_s(c1) == 65536) by {
        assert(65536nat * 65536nat == 4294967296 && 65537nat * 65537nat == 4295098369)
            by (nonlinear_arith);
        crate::fixed::lemma_sqrt_floor_unique((65536 * 65536) as nat, 65536nat);
    }
    let up = v3_div_s(c1, 65536);
    assert(up == (V3 { x: 0, y: 65536, z: 0 }));
    assert(unit_s(c1) == Some(up));
    let right = v3_neg_s(r0);
    assert(right == (V3 { x: -65536, y: 0, z: 0 }));
    let hs = scale / 2;
    assert(scale == 2 * hs && hs > 0) by {
        vstd::arithmetic::div_mod::lemma_fundamental_div_mod(scale, 2);
    }
    assert((2 * scale) / 2 == scale) by {
        vstd::arithmetic::div_mod::lemma_div_multiples_vanish(scale, 2);
    }
    lemma_fx_mul_unit(scale);
    lemma_fx_mul_unit(hs);
    assert(v3_scale_s(right, scale) == (V3 { x: -scale, y: 0, z: 0 }));
    assert(v3_scale_s(up, hs) == (V3 { x: 0, y: hs, z: 0 }));
    let top_left = v3_add_s(
        v3_sub_s(pos, v3_scale_s(right, (2 * scale) / 2)),
        v3_scale_s(up, scale / 2),
    );
    assert(top_left == (V3 { x: pos.x + scale, y: pos.y + hs, z: pos.z }));
    let diff = v3_sub_s(hit, top_left);
    assert(diff == (V3 { x: -scale, y: -hs, z: 0 }));
    assert(v3_dot_s(diff, right) == scale);
    assert(v3_dot_s(diff, up) == -hs);
    assert(fx_div_s(scale, 2 * scale) == 32768) by {
        assert(fx_abs(scale * 65536) == scale * 65536 && scale * 65536 == 32768 * (2 * scale)
            && fx_abs(2 * scale) == 2 * scale) by (nonlinear_arith)
            requires
                scale > 0,
        ;
        vstd::arithmetic::div_mod::lemma_div_multiples_vanish(32768, 2 * scale);
        assert((2 * scale) * 32768 == 32768 * (2 * scale)) by (nonlinear_arith);
    }
    assert(fx_div_s(-hs, scale) == -32768) by {
        assert(fx_abs((-hs) * 65536) == hs * 65536 && hs * 65536 == 32768 * scale && (-hs) * 65536
            < 0) by (nonlinear_arith)
            requires
                hs > 0,
                scale == 2 * hs,
        ;
        vstd::arithmetic::div_mod::lemma_div_multiples_vanish(32768, scale);
        assert(scale * 32768 == 32768 * scale) by (nonlinear_arith);
    }
    assert(aim_hit_s(eye, dir, pos, n, 2 * scale, scale) == Some((32768int, 32768int)));
}

} // verus!

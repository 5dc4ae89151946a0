//! Texture streaming: partial bitmap updates into a fixed-size texture.
//!
//! A screen's texture is allocated once, at the maximum surface size,
//! when its entity is created; every update writes a sub-rectangle at its
//! own offset and never resizes. Last write wins per pixel, so replaying
//! an update changes nothing.

use vstd::prelude::*;
use vstd::pervasive::VecAdditionalExecFns;

verus! {

/// Fixed texture width, in pixels.
pub const TEXTURE_WIDTH: usize = 2048;

/// Fixed texture height, in pixels.
pub const TEXTURE_HEIGHT: usize = 1024;

/// A sub-rectangle of changed pixels pushed by a browser surface,
/// row-major, top-left origin.
pub struct BitmapUpdate {
    pub x: usize,
    pub y: usize,
    pub width: usize,
    pub height: usize,
    pub pixels: Vec<u32>,
}

impl BitmapUpdate {
    /// The pixel buffer holds exactly the rectangle.
    pub open spec fn wf(&self) -> bool {
        self.pixels@.len() == self.width * self.height
    }
}

/// A GPU-visible pixel buffer owned by one entity.
pub struct ScreenTexture {
    pub width: usize,
    pub height: usize,
    pub pixels: Vec<u32>,
}

/// The update's rectangle lies inside the texture.
pub open spec fn update_fits(u: BitmapUpdate, width: int, height: int) -> bool {
    u.x + u.width <= width && u.y + u.height <= height
}

/// The pixel the update holds for texture cell `(row, col)`.
pub open spec fn update_pixel_at(u: BitmapUpdate, row: int, col: int) -> u32 {
    u.pixels@[(row - u.y) * u.width + (col - u.x)]
}

/// Whether texture index `i` falls inside the update's rectangle.
pub open spec fn in_update(u: BitmapUpdate, width: int, i: int) -> bool {
    u.y <= i / width < u.y + u.height && u.x <= i % width < u.x + u.width
}

/// The whole texture after applying one update: pixels inside the
/// rectangle come from the update, the rest keep their old value.
pub open spec fn apply_update_s(t: Seq<u32>, width: int, u: BitmapUpdate) -> Seq<u32> {
    Seq::new(
        t.len(),
        |i: int|
            if in_update(u, width, i) {
                update_pixel_at(u, i / width, i % width)
            } else {
                t[i]
            },
    )
}

/// The texture after the update's first `rows` full rows and, in the next
/// row, the first `cols` pixels have been written.
pub open spec fn partial_update_s(t: Seq<u32>, width: int, u: BitmapUpdate, rows: int, cols: int) -> Seq<u32> {
    Seq::new(
        t.len(),
        |i: int|
            if in_update(u, width, i) && (i / width < u.y + rows || (i / width == u.y + rows && i
                % width < u.x + cols)) {
                update_pixel_at(u, i / width, i % width)
            } else {
                t[i]
            },
    )
}

/// Applying the same update twice leaves the texture exactly as one
/// application left it: streaming is idempotent, last write wins.
pub proof fn lemma_apply_update_idempotent(t: Seq<u32>, width: int, u: BitmapUpdate)
    ensures
        apply_update_s(apply_update_s(t, width, u), width, u) =~= apply_update_s(t, width, u),
{
}

impl ScreenTexture {
    /// The buffer matches the advertised dimensions.
    pub open spec fn wf(&self) -> bool {
        self.pixels@.len() == self.width * self.height && self.width == TEXTURE_WIDTH
            && self.height == TEXTURE_HEIGHT
    }

    /// Allocates the one texture an entity will ever own: maximum size,
    /// filled white.
    pub fn new() -> (r: ScreenTexture)
        ensures
            r.wf(),
            r.width == TEXTURE_WIDTH,
            r.height == TEXTURE_HEIGHT,
            forall|i: int| 0 <= i < r.pixels@.len() ==> r.pixels@[i] == 0xFFFF_FFFFu32,
    {
        let mut pixels: Vec<u32> = Vec::new();
        pixels.resize(TEXTURE_WIDTH * TEXTURE_HEIGHT, 0xFFFF_FFFF);
        ScreenTexture { width: TEXTURE_WIDTH, height: TEXTURE_HEIGHT, pixels }
    }

    /// Applies one partial bitmap update at its matching offset, without
    /// resizing or reallocating.
    pub fn apply_update(&mut self, u: &BitmapUpdate)
        requires
            old(self).wf(),
            u.wf(),
            update_fits(*u, old(self).width as int, old(self).height as int),
        ensures
            final(self).wf(),
            final(self).width == old(self).width,
            final(self).height == old(self).height,
            final(self).pixels@ == apply_update_s(old(self).pixels@, old(self).width as int, *u),
    {
        let ghost t0 = self.pixels@;
        let ghost w = self.width as int;
        let ghost th = self.height as int;
        proof {
            assert(t0 =~= partial_update_s(t0, w, *u, 0, 0));
        }
        let mut r: usize = 0;
        while r < u.height
            invariant
                old(self).wf(),
                u.wf(),
                update_fits(*u, w, th),
                w == old(self).width as int,
                th == old(self).height as int,
                t0 == old(self).pixels@,
                self.width == old(self).width,
                self.height == old(self).height,
                r <= u.height,
                self.pixels@ == partial_update_s(t0, w, *u, r as int, 0),
            decreases u.height - r,
        {
            let mut c: usize = 0;
            while c < u.width
                invariant
                    old(self).wf(),
                    u.wf(),
                    update_fits(*u, w, th),
                    w == old(self).width as int,
                    th == old(self).height as int,
                    t0 == old(self).pixels@,
                    self.width == old(self).width,
                    self.height == old(self).height,
                    r < u.height,
                    c <= u.width,
                    self.pixels@ == partial_update_s(t0, w, *u, r as int, c as int),
                decreases u.width - c,
            {
                let row = u.y + r;
                let col = u.x + c;
                let j = row * self.width + col;
                let ghost jg = j as int;
                let plen = u.pixels.len();
                proof {
                    assert(row < th && col < w);
                    assert(row * w + col < th * w) by (nonlinear_arith)
                        requires
                            row < th,
                            col < w,
                            w > 0,
                    ;
                    assert(th * w == t0.len()) by (nonlinear_arith)
                        requires
                            t0.len() == w * th,
                    ;
                    assert((row * w + col) / w == row && (row * w + col) % w == col)
                        by (nonlinear_arith)
                        requires
                            0 <= col < w,
                            0 <= row,
                    ;
                    assert(r * u.width + c < u.width * u.height) by (nonlinear_arith)
                        requires
                            r < u.height,
                            c < u.width,
                            u.width > 0,
                    ;
                }
                let v = u.pixels[r * u.width + c];
                proof {
                    assert((row - u.y) * u.width + (col - u.x) == r * u.width + c)
                        by (nonlinear_arith)
                        requires
                            row == u.y + r,
                            col == u.x + c,
                    ;
                }
                let ghost prev = self.pixels@;
                let ghost cg = c as int;
                self.pixels.set(j, v);
                c = c + 1;
                proof {
                    assert(self.pixels@ == prev.update(jg, v));
                    assert(jg == (row as int) * w + (col as int));
                    assert(jg / w == row as int && jg % w == col as int);
                    assert(in_update(*u, w, jg));
                    assert(update_pixel_at(*u, jg / w, jg % w) == v);
                    assert forall|i: int|
                        0 <= i < t0.len() implies prev.update(jg, v)[i] == partial_update_s(
                        t0,
                        w,
                        *u,
                        r as int,
                        cg + 1,
                    )[i] by {
                        if i != jg && i / w == row as int && i % w == col as int {
                            vstd::arithmetic::div_mod::lemma_fundamental_div_mod(i, w);
                            vstd::arithmetic::mul::lemma_mul_is_commutative(w, i / w);
                            assert(i == jg);
                        }
                    }
                    assert(prev.update(jg, v) =~= partial_update_s(t0, w, *u, r as int, cg + 1));
                }
            }
            r = r + 1;
            proof {
                assert(self.pixels@ =~= partial_update_s(t0, w, *u, r as int, 0));
            }
        }
        proof {
            assert(self.pixels@ =~= apply_update_s(t0, w, *u));
        }
    }
}

} // verus!

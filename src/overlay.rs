//! The annotation layer: a CPU-side RGBA buffer the size of the page, into
//! which brush stamps are painted before the whole buffer is handed to the
//! GPU.
use vstd::prelude::*;
use vstd::arithmetic::div_mod::{
    lemma_fundamental_div_mod, lemma_fundamental_div_mod_converse, lemma_mod_pos_bound,
    lemma_multiply_divide_lt,
};

verus! {

/// Radius of the brush, in texels.
pub const BRUSH_RADIUS: i64 = 5;

/// Whether the texel `(x, y)` lies on the brush disc centred at `(tx, ty)`:
/// `dx² + dy² <= radius²`.
pub open spec fn in_brush(tx: int, ty: int, x: int, y: int) -> bool {
    (x - tx) * (x - tx) + (y - ty) * (y - ty) <= BRUSH_RADIUS * BRUSH_RADIUS
}

/// Channel `c` of the brush colour: yellow (255, 255, 0) at alpha 100.
pub open spec fn brush_byte(c: int) -> u8 {
    if c == 0 {
        255u8
    } else if c == 1 {
        255u8
    } else if c == 2 {
        0u8
    } else {
        100u8
    }
}

/// Column of the texel that byte `i` belongs to, on a buffer `w` texels wide.
pub open spec fn col_of(i: int, w: int) -> int {
    (i / 4) % w
}

/// Row of the texel that byte `i` belongs to, on a buffer `w` texels wide.
pub open spec fn row_of(i: int, w: int) -> int {
    (i / 4) / w
}

/// Byte `i` of the buffer `old`, `w` texels wide, after a stamp at `(tx, ty)`.
pub open spec fn stamped_byte(old: Seq<u8>, w: int, tx: int, ty: int, i: int) -> u8 {
    if in_brush(tx, ty, col_of(i, w), row_of(i, w)) {
        brush_byte(i % 4)
    } else {
        old[i]
    }
}

/// Whether a stamp at `(tx, ty)` reaches any texel of a `w` by `h` buffer.
pub open spec fn stamp_hits(w: int, h: int, tx: int, ty: int) -> bool {
    exists|x: int, y: int| 0 <= x < w && 0 <= y < h && #[trigger] in_brush(tx, ty, x, y)
}

/// A texel on the disc is within the radius of the centre on both axes.
pub proof fn lemma_brush_box(tx: int, ty: int, x: int, y: int)
    requires
        in_brush(tx, ty, x, y),
    ensures
        tx - BRUSH_RADIUS <= x <= tx + BRUSH_RADIUS,
        ty - BRUSH_RADIUS <= y <= ty + BRUSH_RADIUS,
{
    assert(tx - 5 <= x <= tx + 5 && ty - 5 <= y <= ty + 5) by (nonlinear_arith)
        requires
            (x - tx) * (x - tx) + (y - ty) * (y - ty) <= 25,
    ;
}

/// Byte `i` of a `w` by `h` buffer belongs to texel `(col, row)`, within
/// the buffer.
pub proof fn lemma_texel_of(i: int, w: int, h: int)
    requires
        0 <= i < w * h * 4,
        w > 0,
    ensures
        0 <= col_of(i, w) < w,
        0 <= row_of(i, w) < h,
        i / 4 == row_of(i, w) * w + col_of(i, w),
{
    lemma_mod_pos_bound(i / 4, w);
    lemma_fundamental_div_mod(i / 4, w);
    assert(w * row_of(i, w) == row_of(i, w) * w) by (nonlinear_arith);
    assert(i / 4 < w * h);
    lemma_multiply_divide_lt(i / 4, w, h);
    assert(0 <= row_of(i, w)) by (nonlinear_arith)
        requires
            i / 4 >= 0,
            w > 0,
            row_of(i, w) == (i / 4) / w,
    ;
}

/// Byte `c` of texel `(x, y)` sits at `(y * w + x) * 4 + c`.
pub proof fn lemma_texel_index(x: int, y: int, w: int, c: int)
    requires
        0 <= x < w,
        0 <= c < 4,
    ensures
        col_of((y * w + x) * 4 + c, w) == x,
        row_of((y * w + x) * 4 + c, w) == y,
        ((y * w + x) * 4 + c) % 4 == c,
{
    let k = y * w + x;
    assert(((k * 4 + c) / 4) == k);
    lemma_fundamental_div_mod_converse(k, w, y, x);
}

/// The overlay's pixels, `width * height` texels of 4 bytes, row by row.
pub struct OverlayBuffer {
    pub width: u32,
    pub height: u32,
    pub pixels: Vec<u8>,
}

impl OverlayBuffer {
    /// The buffer holds exactly 4 bytes for each texel.
    pub open spec fn wf(&self) -> bool {
        &&& self.pixels@.len() == self.width * self.height * 4
        &&& self.width * self.height * 4 <= usize::MAX
    }

    /// Every byte is zero.
    pub open spec fn is_clear(&self) -> bool {
        forall|i: int| 0 <= i < self.pixels@.len() ==> #[trigger] self.pixels@[i] == 0
    }

    /// A transparent buffer of `width` by `height` texels.
    pub fn new(width: u32, height: u32) -> (r: OverlayBuffer)
        requires
            width * height * 4 <= usize::MAX,
        ensures
            r.wf(),
            r.width == width,
            r.height == height,
            r.is_clear(),
    {
        let n: usize = width as usize * height as usize * 4;
        let mut pixels: Vec<u8> = Vec::new();
        let mut i: usize = 0;
        while i < n
            invariant
                i <= n,
                pixels@.len() == i,
                forall|j: int| 0 <= j < i ==> #[trigger] pixels@[j] == 0,
            decreases n - i,
        {
            pixels.push(0);
            i = i + 1;
        }
        OverlayBuffer { width, height, pixels }
    }

    /// Zeroes every byte; the size is kept.
    pub fn clear(&mut self)
        requires
            old(self).wf(),
        ensures
            final(self).wf(),
            final(self).width == old(self).width,
            final(self).height == old(self).height,
            final(self).is_clear(),
    {
        let n = self.pixels.len();
        let mut i: usize = 0;
        while i < n
            invariant
                i <= n,
                self.wf(),
                self.pixels@.len() == n,
                self.width == old(self).width,
                self.height == old(self).height,
                forall|j: int| 0 <= j < i ==> #[trigger] self.pixels@[j] == 0,
            decreases n - i,
        {
            self.pixels.set(i, 0);
            i = i + 1;
        }
    }

    /// The four bytes of texel `(x, y)`.
    pub fn pixel(&self, x: u32, y: u32) -> (r: [u8; 4])
        requires
            self.wf(),
            x < self.width,
            y < self.height,
        ensures
            forall|c: int|
                0 <= c < 4 ==> r@[c] == self.pixels@[(y * self.width + x) * 4 + c],
    {
        assert(y * self.width + x < self.width * self.height) by (nonlinear_arith)
            requires
                x < self.width,
                y < self.height,
        ;
        let k = (y as usize * self.width as usize + x as usize) * 4;
        [self.pixels[k], self.pixels[k + 1], self.pixels[k + 2], self.pixels[k + 3]]
    }

    /// Stamps the brush disc centred at texel `(tx, ty)`, clipped to the
    /// buffer. Returns whether any texel was stamped, that is whether the
    /// buffer needs uploading again.
    pub fn paint(&mut self, tx: i64, ty: i64) -> (modified: bool)
        requires
            old(self).wf(),
        ensures
            final(self).wf(),
            final(self).width == old(self).width,
            final(self).height == old(self).height,
            forall|i: int|
                0 <= i < final(self).pixels@.len() ==> #[trigger] final(self).pixels@[i]
                    == stamped_byte(old(self).pixels@, old(self).width as int, tx as int, ty as int, i),
            modified == stamp_hits(old(self).width as int, old(self).height as int, tx as int, ty as int),
    {
        let ghost old_px = self.pixels@;
        let w = self.width as i64;
        let h = self.height as i64;
        let ghost wi = w as int;
        let ghost hi = h as int;
        let ghost txi = tx as int;
        let ghost tyi = ty as int;
        let y0: i64 = if ty > BRUSH_RADIUS { ty - BRUSH_RADIUS } else { 0 };
        let y1: i64 = if ty < h - 1 - BRUSH_RADIUS { ty + BRUSH_RADIUS } else { h - 1 };
        let x0: i64 = if tx > BRUSH_RADIUS { tx - BRUSH_RADIUS } else { 0 };
        let x1: i64 = if tx < w - 1 - BRUSH_RADIUS { tx + BRUSH_RADIUS } else { w - 1 };
        let mut modified = false;
        let mut y = y0;
        assert forall|xx: int, yy: int|
            0 <= xx < wi && 0 <= yy < hi && yy < y && #[trigger] in_brush(txi, tyi, xx, yy)
                implies false by {
            lemma_brush_box(txi, tyi, xx, yy);
        }
        assert forall|i: int|
            0 <= i < old_px.len() && row_of(i, wi) < y implies !in_brush(
            txi,
            tyi,
            col_of(i, wi),
            row_of(i, wi),
        ) by {
            lemma_texel_of(i, wi, hi);
            if in_brush(txi, tyi, col_of(i, wi), row_of(i, wi)) {
                lemma_brush_box(txi, tyi, col_of(i, wi), row_of(i, wi));
            }
        }
        while y <= y1
            invariant
                self.wf(),
                self.width == w,
                self.height == h,
                self.pixels@.len() == old_px.len(),
                old_px.len() == wi * hi * 4,
                wi == w,
                hi == h,
                txi == tx,
                tyi == ty,
                0 <= y0 <= y,
                y0 == 0 || y0 == ty - BRUSH_RADIUS,
                y1 == h - 1 || y1 == ty + BRUSH_RADIUS,
                y1 <= h - 1,
                y <= y1 + 1 || y == y0,
                ty - BRUSH_RADIUS <= y0,
                y1 <= ty + BRUSH_RADIUS,
                tx - BRUSH_RADIUS <= x0,
                x1 <= tx + BRUSH_RADIUS,
                0 <= x0,
                x0 == 0 || x0 == tx - BRUSH_RADIUS,
                x1 == w - 1 || x1 == tx + BRUSH_RADIUS,
                x1 <= w - 1,
                forall|i: int|
                    0 <= i < old_px.len() ==> #[trigger] self.pixels@[i] == if row_of(i, wi) < y
                        && in_brush(txi, tyi, col_of(i, wi), row_of(i, wi)) {
                        brush_byte(i % 4)
                    } else {
                        old_px[i]
                    },
                modified <==> exists|xx: int, yy: int|
                    0 <= xx < wi && 0 <= yy < hi && yy < y && #[trigger] in_brush(
                        txi,
                        tyi,
                        xx,
                        yy,
                    ),
            decreases y1 + 1 - y,
        {
            let mut x = x0;
            assert forall|xx: int, yy: int|
                0 <= xx < wi && 0 <= yy < hi && yy == y && xx < x && #[trigger] in_brush(
                    txi,
                    tyi,
                    xx,
                    yy,
                ) implies false by {
                lemma_brush_box(txi, tyi, xx, yy);
            }
            assert forall|i: int|
                0 <= i < old_px.len() && row_of(i, wi) == y && col_of(i, wi) < x implies !in_brush(
                txi,
                tyi,
                col_of(i, wi),
                row_of(i, wi),
            ) by {
                if in_brush(txi, tyi, col_of(i, wi), row_of(i, wi)) {
                    lemma_brush_box(txi, tyi, col_of(i, wi), row_of(i, wi));
                }
            }
            while x <= x1
                invariant
                    self.wf(),
                    self.width == w,
                    self.height == h,
                    self.pixels@.len() == old_px.len(),
                    old_px.len() == wi * hi * 4,
                    wi == w,
                    hi == h,
                    txi == tx,
                    tyi == ty,
                wi == w,
                hi == h,
                txi == tx,
                tyi == ty,
                    y0 <= y <= y1,
                    0 <= y0,
                    y1 <= h - 1,
                    0 <= x0 <= x,
                    x0 == 0 || x0 == tx - BRUSH_RADIUS,
                    x1 == w - 1 || x1 == tx + BRUSH_RADIUS,
                    x1 <= w - 1,
                    x <= x1 + 1 || x == x0,
                    ty - BRUSH_RADIUS <= y0,
                    y1 <= ty + BRUSH_RADIUS,
                    tx - BRUSH_RADIUS <= x0,
                    x1 <= tx + BRUSH_RADIUS,
                    y0 == 0 || y0 == ty - BRUSH_RADIUS,
                    y1 == h - 1 || y1 == ty + BRUSH_RADIUS,
                    forall|i: int|
                        0 <= i < old_px.len() ==> #[trigger] self.pixels@[i] == if (row_of(i, wi)
                            < y || (row_of(i, wi) == y && col_of(i, wi) < x)) && in_brush(
                            txi,
                            tyi,
                            col_of(i, wi),
                            row_of(i, wi),
                        ) {
                            brush_byte(i % 4)
                        } else {
                            old_px[i]
                        },
                    modified <==> exists|xx: int, yy: int|
                        0 <= xx < wi && 0 <= yy < hi && (yy < y || (yy == y && xx < x))
                            && #[trigger] in_brush(txi, tyi, xx, yy),
                decreases x1 + 1 - x,
            {
                let dx = x - tx;
                let dy = y - ty;
                assert(0 <= dx * dx <= 25 && 0 <= dy * dy <= 25) by (nonlinear_arith)
                    requires
                        -5 <= dx <= 5,
                        -5 <= dy <= 5,
                ;
                if dx * dx + dy * dy <= BRUSH_RADIUS * BRUSH_RADIUS {
                    assert(y * w + x < w * h) by (nonlinear_arith)
                        requires
                            0 <= x < w,
                            0 <= y < h,
                    ;
                    let k = (y as usize * w as usize + x as usize) * 4;
                    let ghost kk = y * w + x;
                    let ghost before = self.pixels@;
                    self.pixels.set(k, 255);
                    self.pixels.set(k + 1, 255);
                    self.pixels.set(k + 2, 0);
                    self.pixels.set(k + 3, 100);
                    assert(in_brush(txi, tyi, x as int, y as int));
                    assert forall|i: int| 0 <= i < old_px.len() implies #[trigger] self.pixels@[i]
                        == if (row_of(i, wi) < y || (row_of(i, wi) == y && col_of(i, wi) < x
                        + 1)) && in_brush(txi, tyi, col_of(i, wi), row_of(i, wi)) {
                        brush_byte(i % 4)
                    } else {
                        old_px[i]
                    } by {
                        lemma_texel_of(i, wi, hi);
                        if k <= i < k + 4 {
                            lemma_texel_index(x as int, y as int, wi, i - k);
                        } else {
                            assert(self.pixels@[i] == before[i]);
                            if row_of(i, wi) == y && col_of(i, wi) == x {
                                assert(i / 4 == kk);
                            }
                        }
                    }
                    assert(0 <= x < wi && 0 <= y < hi && in_brush(txi, tyi, x as int, y as int));
                    modified = true;
                } else {
                    assert(!in_brush(txi, tyi, x as int, y as int));
                    assert forall|i: int| 0 <= i < old_px.len() implies #[trigger] self.pixels@[i]
                        == if (row_of(i, wi) < y || (row_of(i, wi) == y && col_of(i, wi) < x
                        + 1)) && in_brush(txi, tyi, col_of(i, wi), row_of(i, wi)) {
                        brush_byte(i % 4)
                    } else {
                        old_px[i]
                    } by {
                        if row_of(i, wi) == y && col_of(i, wi) == x {
                        }
                    }
                }
                x = x + 1;
            }
            proof {
                assert forall|xx: int, yy: int|
                    0 <= xx < wi && 0 <= yy < hi && yy == y && #[trigger] in_brush(
                        txi,
                        tyi,
                        xx,
                        yy,
                    ) implies xx < x by {
                    lemma_brush_box(txi, tyi, xx, yy);
                }
                assert forall|i: int| 0 <= i < old_px.len() implies #[trigger] self.pixels@[i]
                    == if row_of(i, wi) < y + 1 && in_brush(
                    txi,
                    tyi,
                    col_of(i, wi),
                    row_of(i, wi),
                ) {
                    brush_byte(i % 4)
                } else {
                    old_px[i]
                } by {
                    lemma_texel_of(i, wi, hi);
                    if in_brush(txi, tyi, col_of(i, wi), row_of(i, wi)) {
                        lemma_brush_box(txi, tyi, col_of(i, wi), row_of(i, wi));
                    }
                }
            }
            y = y + 1;
        }
        proof {
            assert forall|xx: int, yy: int|
                0 <= xx < wi && 0 <= yy < hi && #[trigger] in_brush(txi, tyi, xx, yy) implies yy
                < y by {
                lemma_brush_box(txi, tyi, xx, yy);
            }
            assert forall|i: int| 0 <= i < self.pixels@.len() implies #[trigger] self.pixels@[i]
                == stamped_byte(old_px, wi, txi, tyi, i) by {
                lemma_texel_of(i, wi, hi);
                if in_brush(txi, tyi, col_of(i, wi), row_of(i, wi)) {
                    lemma_brush_box(txi, tyi, col_of(i, wi), row_of(i, wi));
                }
            }
        }
        modified
    }
}

} // verus!

//! The coordinate chain from a screen pixel to a texel of the page.
//!
//! Screen pixels map to normalized device coordinates (NDC), NDC to camera
//! space by undoing pan and zoom, camera space to texture coordinates (UV)
//! and UV to a texel. Every stage is exact: a rational value is a pair
//! (numerator, denominator) of integers with a positive denominator, the zoom
//! is held in thousandths and the pan in millionths of an NDC unit.
use vstd::prelude::*;
use vstd::arithmetic::div_mod::{lemma_div_by_multiple, lemma_div_denominator};
use vstd::arithmetic::mul::lemma_mul_is_associative;

verus! {

/// Units per 1.0 of zoom.
pub const ZOOM_UNIT: u32 = 1000;

/// Units per 1.0 NDC of pan.
pub const PAN_UNIT: i64 = 1_000_000;

/// An exact rational number `num / den`.
#[derive(Clone, Copy, PartialEq, Eq, Debug)]
pub struct Frac {
    pub num: i128,
    pub den: i128,
}

impl View for Frac {
    type V = (int, int);

    open spec fn view(&self) -> (int, int) {
        (self.num as int, self.den as int)
    }
}

/// NDC of a screen pixel in a `w` by `h` viewport: `x = 2px/w - 1`,
/// `y = 1 - 2py/h` (screen-down is NDC-up).
pub open spec fn ndc_of(px: int, py: int, w: int, h: int) -> ((int, int), (int, int)) {
    ((2 * px - w, w), (h - 2 * py, h))
}

/// The screen pixel of an NDC point: the inverse of `ndc_of`.
pub open spec fn screen_of(x: (int, int), y: (int, int), w: int, h: int) -> ((int, int), (int, int)) {
    (((x.0 + x.1) * w, 2 * x.1), ((y.1 - y.0) * h, 2 * y.1))
}

/// Camera space of an NDC point: `xc = (x - pan_x) / zoom` and
/// `yc = (y - pan_y) / (zoom * aspect)` with `aspect = w / h`; `zoom` is in
/// thousandths and the pan in millionths.
pub open spec fn camera_of(
    x: (int, int),
    y: (int, int),
    zoom: int,
    pan_x: int,
    pan_y: int,
    w: int,
    h: int,
) -> ((int, int), (int, int)) {
    (
        ((x.0 * PAN_UNIT - pan_x * x.1) * ZOOM_UNIT, x.1 * PAN_UNIT * zoom),
        ((y.0 * PAN_UNIT - pan_y * y.1) * ZOOM_UNIT * h, y.1 * PAN_UNIT * zoom * w),
    )
}

/// NDC of a camera-space point, as the vertex stage places it:
/// `x = xc * zoom + pan_x` and `y = yc * zoom * aspect + pan_y`, with
/// `aspect = w / h`.
pub open spec fn ndc_of_camera(
    xc: (int, int),
    yc: (int, int),
    zoom: int,
    pan_x: int,
    pan_y: int,
    w: int,
    h: int,
) -> ((int, int), (int, int)) {
    (
        (xc.0 * zoom * PAN_UNIT + pan_x * xc.1 * ZOOM_UNIT, xc.1 * ZOOM_UNIT * PAN_UNIT),
        (yc.0 * zoom * w * PAN_UNIT + pan_y * yc.1 * ZOOM_UNIT * h, yc.1 * ZOOM_UNIT * h * PAN_UNIT),
    )
}

/// Equal rational values.
pub open spec fn same_value(a: (int, int), b: (int, int)) -> bool {
    a.0 * b.1 == b.0 * a.1
}

/// Undoing pan and zoom inverts the placement of the vertex stage: a camera
/// point placed on screen and mapped back is the same point.
pub proof fn lemma_camera_round_trip(
    xc: (int, int),
    yc: (int, int),
    zoom: int,
    pan_x: int,
    pan_y: int,
    w: int,
    h: int,
)
    requires
        xc.1 > 0,
        yc.1 > 0,
        zoom > 0,
        w > 0,
        h > 0,
    ensures
        ({
            let ndc = ndc_of_camera(xc, yc, zoom, pan_x, pan_y, w, h);
            let back = camera_of(ndc.0, ndc.1, zoom, pan_x, pan_y, w, h);
            same_value(back.0, xc) && same_value(back.1, yc) && back.0.1 > 0 && back.1.1 > 0
        }),
{
    let p = PAN_UNIT as int;
    let z = ZOOM_UNIT as int;
    let ndc = ndc_of_camera(xc, yc, zoom, pan_x, pan_y, w, h);
    let back = camera_of(ndc.0, ndc.1, zoom, pan_x, pan_y, w, h);
    assert(back.0.0 == xc.0 * zoom * p * p * z) by (nonlinear_arith)
        requires
            back.0.0 == (ndc.0.0 * p - pan_x * ndc.0.1) * z,
            ndc.0.0 == xc.0 * zoom * p + pan_x * xc.1 * z,
            ndc.0.1 == xc.1 * z * p,
    ;
    assert(back.0.1 == xc.1 * z * p * p * zoom) by (nonlinear_arith)
        requires
            back.0.1 == ndc.0.1 * p * zoom,
            ndc.0.1 == xc.1 * z * p,
    ;
    let a = yc.0 * zoom * w * p;
    let b = pan_y * yc.1 * z * h;
    let k = zoom * w * p * p * z * h;
    assert(ndc.1.0 * p == a * p + b * p) by (nonlinear_arith)
        requires
            ndc.1.0 == a + b,
    ;
    assert(pan_y * ndc.1.1 == b * p) by (nonlinear_arith)
        requires
            ndc.1.1 == yc.1 * z * h * p,
            b == pan_y * yc.1 * z * h,
    ;
    // Both components of `back.1` are `yc` times the same factor `k`.
    assert(back.1.0 == (((((yc.0 * zoom) * w) * p) * p) * z) * h);
    let g2 = zoom * w;
    let g3 = g2 * p;
    let g4 = g3 * p;
    let g5 = g4 * z;
    assert(k == g5 * h);
    lemma_mul_is_associative(yc.0, zoom, w);
    lemma_mul_is_associative(yc.0, g2, p);
    lemma_mul_is_associative(yc.0, g3, p);
    lemma_mul_is_associative(yc.0, g4, z);
    lemma_mul_is_associative(yc.0, g5, h);
    assert(back.1.0 == yc.0 * k);
    let n1 = ndc.1.1;
    assert(back.1.1 == ((n1 * p) * zoom) * w);
    assert(n1 * p == yc.1 * (z * h * p * p)) by (nonlinear_arith)
        requires
            n1 == yc.1 * z * h * p,
    ;
    let e = z * h * p * p;
    lemma_mul_is_associative(yc.1, e, zoom);
    lemma_mul_is_associative(yc.1, e * zoom, w);
    assert(e * zoom * w == k) by (nonlinear_arith)
        requires
            e == z * h * p * p,
            k == zoom * w * p * p * z * h,
    ;
    assert(back.1.1 == yc.1 * k);
    assert(same_value(back.0, xc)) by (nonlinear_arith)
        requires
            back.0.0 == xc.0 * zoom * p * p * z,
            back.0.1 == xc.1 * z * p * p * zoom,
    ;
    assert(same_value(back.1, yc)) by (nonlinear_arith)
        requires
            back.1.0 == yc.0 * k,
            back.1.1 == yc.1 * k,
    ;
    assert(k > 0) by (nonlinear_arith)
        requires
            k == zoom * w * p * p * z * h,
            z > 0,
            p > 0,
            zoom > 0,
            w > 0,
            h > 0,
    ;
    assert(back.1.1 > 0) by (nonlinear_arith)
        requires
            back.1.1 == yc.1 * k,
            yc.1 > 0,
            k > 0,
    ;
    assert(back.0.1 > 0) by (nonlinear_arith)
        requires
            back.0.1 == xc.1 * z * p * p * zoom,
            xc.1 > 0,
            z > 0,
            p > 0,
            zoom > 0,
    ;
}

/// Texture coordinates of a camera-space point, `u = (xc + 1) / 2` and
/// `v = (1 - yc) / 2`, or `None` where either lies outside `[0, 1]`.
pub open spec fn uv_of(xc: (int, int), yc: (int, int)) -> Option<((int, int), (int, int))> {
    let u = (xc.0 + xc.1, 2 * xc.1);
    let v = (yc.1 - yc.0, 2 * yc.1);
    if 0 <= u.0 <= u.1 && 0 <= v.0 <= v.1 {
        Some((u, v))
    } else {
        None
    }
}

/// The texel under `(u, v)` on a `width` by `height` texture: the floors of
/// `u * width` and `v * height`.
pub open spec fn texel_of(u: (int, int), v: (int, int), width: int, height: int) -> (int, int) {
    (u.0 * width / u.1, v.0 * height / v.1)
}

/// The whole chain: the texel under the screen pixel `(px, py)`, or `None`
/// where the pixel is off the page.
pub open spec fn target_of(
    px: int,
    py: int,
    w: int,
    h: int,
    zoom: int,
    pan_x: int,
    pan_y: int,
    width: int,
    height: int,
) -> Option<(int, int)> {
    let ndc = ndc_of(px, py, w, h);
    let cam = camera_of(ndc.0, ndc.1, zoom, pan_x, pan_y, w, h);
    match uv_of(cam.0, cam.1) {
        Some(uv) => Some(texel_of(uv.0, uv.1, width, height)),
        None => None,
    }
}

/// The screen pixel `(px, py)` maps to NDC and back to itself.
pub proof fn lemma_ndc_round_trip(px: int, py: int, w: int, h: int)
    requires
        w > 0,
        h > 0,
    ensures
        ({
            let ndc = ndc_of(px, py, w, h);
            let back = screen_of(ndc.0, ndc.1, w, h);
            back.0.0 == px * back.0.1 && back.1.0 == py * back.1.1 && back.0.1 > 0 && back.1.1
                > 0
        }),
{
    assert((2 * px - w + w) * w == px * (2 * w)) by (nonlinear_arith);
    assert((h - (h - 2 * py)) * h == py * (2 * h)) by (nonlinear_arith);
}

/// The view's centre maps to the NDC origin and the origin back to the
/// centre `(w/2, h/2)`; the nearest whole pixel `(w/2, h/2)`, rounded down,
/// lies within half a pixel of it, so its NDC is within `1/w` and `1/h` of
/// the origin.
pub proof fn lemma_ndc_center(w: int, h: int)
    requires
        w > 0,
        h > 0,
    ensures
        screen_of((0, 1), (0, 1), w, h).0 == (w, 2int),
        screen_of((0, 1), (0, 1), w, h).1 == (h, 2int),
        ({
            let ndc = ndc_of(w / 2, h / 2, w, h);
            -1 <= ndc.0.0 <= 0 && 0 <= ndc.1.0 <= 1 && (w % 2 == 0 ==> ndc.0.0 == 0) && (h % 2
                == 0 ==> ndc.1.0 == 0)
        }),
{
    assert((0int + 1int) * w == w && (1int - 0int) * h == h) by (nonlinear_arith);
}

/// Where the camera point's `u` or `v` falls outside `[0, 1]`, there is no
/// target.
pub proof fn lemma_off_page_rejected(xc: (int, int), yc: (int, int))
    requires
        xc.1 > 0,
        yc.1 > 0,
        !(0 <= xc.0 + xc.1 <= 2 * xc.1) || !(0 <= yc.1 - yc.0 <= 2 * yc.1),
    ensures
        uv_of(xc, yc) is None,
{
}

/// At zoom 1 and no pan, the pixel at the exact centre of a viewport of even
/// sides lands on the centre texel `(width/2, height/2)` of the page.
pub proof fn lemma_center_texel(w: int, h: int, width: int, height: int)
    requires
        w > 0,
        h > 0,
        w % 2 == 0,
        h % 2 == 0,
        width >= 0,
        height >= 0,
    ensures
        target_of(w / 2, h / 2, w, h, ZOOM_UNIT as int, 0, 0, width, height) == Some(
            (width / 2, height / 2),
        ),
{
    let p = PAN_UNIT as int;
    let z = ZOOM_UNIT as int;
    let ndc = ndc_of(w / 2, h / 2, w, h);
    assert(ndc.0.0 == 0 && ndc.1.0 == 0);
    let cam = camera_of(ndc.0, ndc.1, z, 0, 0, w, h);
    assert(cam.0.0 == 0 && cam.1.0 == 0) by (nonlinear_arith)
        requires
            cam.0.0 == (ndc.0.0 * p - 0 * ndc.0.1) * z,
            cam.1.0 == (ndc.1.0 * p - 0 * ndc.1.1) * z * h,
            ndc.0.0 == 0,
            ndc.1.0 == 0,
    ;
    let kx = cam.0.1;
    let ky = cam.1.1;
    assert(kx > 0 && ky > 0) by (nonlinear_arith)
        requires
            kx == w * p * z,
            ky == h * p * z * w,
            w > 0,
            h > 0,
            p > 0,
            z > 0,
    ;
    assert(uv_of(cam.0, cam.1) == Some(((kx, 2 * kx), (ky, 2 * ky))));
    lemma_cancel(width, 2, kx);
    lemma_cancel(height, 2, ky);
    assert(kx * width == width * kx && ky * height == height * ky) by (nonlinear_arith);
}

/// NDC of a screen pixel.
pub fn screen_to_ndc(px: i64, py: i64, w: u32, h: u32) -> (r: (Frac, Frac))
    requires
        w > 0,
        h > 0,
    ensures
        (r.0@, r.1@) == ndc_of(px as int, py as int, w as int, h as int),
{
    let x = Frac { num: 2 * (px as i128) - w as i128, den: w as i128 };
    let y = Frac { num: h as i128 - 2 * (py as i128), den: h as i128 };
    (x, y)
}

/// Texture coordinates of a camera-space point, or `None` off the page.
pub fn camera_to_uv(xc: Frac, yc: Frac) -> (r: Option<(Frac, Frac)>)
    requires
        0 < xc.den < 0x1_0000_0000_0000_0000_0000_0000_0000,
        0 < yc.den < 0x1_0000_0000_0000_0000_0000_0000_0000,
        -0x1_0000_0000_0000_0000_0000_0000_0000 < xc.num < 0x1_0000_0000_0000_0000_0000_0000_0000,
        -0x1_0000_0000_0000_0000_0000_0000_0000 < yc.num < 0x1_0000_0000_0000_0000_0000_0000_0000,
    ensures
        r is Some <==> uv_of(xc@, yc@) is Some,
        r matches Some(uv) ==> uv_of(xc@, yc@) == Some((uv.0@, uv.1@)),
{
    let u = Frac { num: xc.num + xc.den, den: 2 * xc.den };
    let v = Frac { num: yc.den - yc.num, den: 2 * yc.den };
    if 0 <= u.num && u.num <= u.den && 0 <= v.num && v.num <= v.den {
        Some((u, v))
    } else {
        None
    }
}

/// The texel under `(u, v)` on a `width` by `height` texture. Where `u` or
/// `v` is exactly 1 the texel lies one past the last column or row.
pub fn uv_to_texel(u: Frac, v: Frac, width: u32, height: u32) -> (r: (u32, u32))
    requires
        0 <= u.num <= u.den,
        0 <= v.num <= v.den,
        0 < u.den < 0x1_0000_0000_0000_0000_0000,
        0 < v.den < 0x1_0000_0000_0000_0000_0000,
    ensures
        (r.0 as int, r.1 as int) == texel_of(u@, v@, width as int, height as int),
        r.0 <= width,
        r.1 <= height,
{
    assert(0 <= u.num * width <= u.den * width) by (nonlinear_arith)
        requires
            0 <= u.num <= u.den,
            0 <= width,
    ;
    assert(0 <= v.num * height <= v.den * height) by (nonlinear_arith)
        requires
            0 <= v.num <= v.den,
            0 <= height,
    ;
    assert(u.den * width < 0x1_0000_0000_0000_0000_0000_0000_0000) by (nonlinear_arith)
        requires
            0 < u.den < 0x1_0000_0000_0000_0000_0000,
            0 <= width <= u32::MAX,
    ;
    assert(v.den * height < 0x1_0000_0000_0000_0000_0000_0000_0000) by (nonlinear_arith)
        requires
            0 < v.den < 0x1_0000_0000_0000_0000_0000,
            0 <= height <= u32::MAX,
    ;
    let tx = u.num * (width as i128) / u.den;
    let ty = v.num * (height as i128) / v.den;
    assert(tx <= width) by (nonlinear_arith)
        requires
            tx == u.num * width / (u.den as int),
            0 <= u.num * width <= u.den * width,
            u.den > 0,
    ;
    assert(ty <= height) by (nonlinear_arith)
        requires
            ty == v.num * height / (v.den as int),
            0 <= v.num * height <= v.den * height,
            v.den > 0,
    ;
    (tx as u32, ty as u32)
}

proof fn lemma_cancel(n: int, d: int, k: int)
    requires
        n >= 0,
        d > 0,
        k > 0,
    ensures
        (n * k) / (d * k) == n / d,
{
    lemma_div_by_multiple(n, k);
    lemma_div_denominator(n * k, k, d);
    assert(k * d == d * k) by (nonlinear_arith);
}

/// The texel under the screen pixel `(px, py)` of a `w` by `h` viewport, for
/// the camera with zoom `zoom` (thousandths) and pan `(pan_x, pan_y)`
/// (millionths of NDC), on a `width` by `height` page; `None` where the pixel
/// is off the page.
pub fn screen_to_texel(
    px: i64,
    py: i64,
    w: u32,
    h: u32,
    zoom: u32,
    pan_x: i64,
    pan_y: i64,
    width: u32,
    height: u32,
) -> (r: Option<(u32, u32)>)
    requires
        w > 0,
        h > 0,
        0 < zoom <= 10 * ZOOM_UNIT,
    ensures
        match r {
            Some(t) => target_of(
                px as int,
                py as int,
                w as int,
                h as int,
                zoom as int,
                pan_x as int,
                pan_y as int,
                width as int,
                height as int,
            ) == Some((t.0 as int, t.1 as int)),
            None => target_of(
                px as int,
                py as int,
                w as int,
                h as int,
                zoom as int,
                pan_x as int,
                pan_y as int,
                width as int,
                height as int,
            ) is None,
        },
{
    let ndc = screen_to_ndc(px, py, w, h);
    let wi = w as i128;
    let hi = h as i128;
    let p = PAN_UNIT as i128;
    let z = ZOOM_UNIT as i128;
    let zi = zoom as i128;
    proof {
        let a = ndc.0.num as int;
        let b = ndc.1.num as int;
        assert(-0x4_0000_0000_0000_0000_0000_0000 < a * p < 0x4_0000_0000_0000_0000_0000_0000) by (
        nonlinear_arith)
            requires
                -0x3_0000_0000_0000_0000 < a < 0x3_0000_0000_0000_0000,
                p == 1_000_000,
        ;
        assert(-0x8000_0000_0000_0000_0000_0000 <= pan_x * wi <= 0x8000_0000_0000_0000_0000_0000)
            by (nonlinear_arith)
            requires
                -0x8000_0000_0000_0000 <= pan_x < 0x8000_0000_0000_0000,
                0 < wi <= 0x1_0000_0000,
        ;
        assert(-0x4_0000_0000_0000_0000_0000_0000 < b * p < 0x4_0000_0000_0000_0000_0000_0000) by (
        nonlinear_arith)
            requires
                -0x3_0000_0000_0000_0000 < b < 0x3_0000_0000_0000_0000,
                p == 1_000_000,
        ;
        assert(-0x8000_0000_0000_0000_0000_0000 <= pan_y * hi <= 0x8000_0000_0000_0000_0000_0000)
            by (nonlinear_arith)
            requires
                -0x8000_0000_0000_0000 <= pan_y < 0x8000_0000_0000_0000,
                0 < hi <= 0x1_0000_0000,
        ;
    }
    let sx = ndc.0.num * p - (pan_x as i128) * wi;
    let sy = ndc.1.num * p - (pan_y as i128) * hi;
    assert(-0x1_0000_0000_0000_0000_0000_0000_0000 < sx * z < 0x1_0000_0000_0000_0000_0000_0000_0000)
        by (nonlinear_arith)
        requires
            -0x1_0000_0000_0000_0000_0000_0000 < sx < 0x1_0000_0000_0000_0000_0000_0000,
            z == 1000,
    ;
    assert(-0x1_0000_0000_0000_0000_0000_0000_0000 < sy * z < 0x1_0000_0000_0000_0000_0000_0000_0000)
        by (nonlinear_arith)
        requires
            -0x1_0000_0000_0000_0000_0000_0000 < sy < 0x1_0000_0000_0000_0000_0000_0000,
            z == 1000,
    ;
    assert(0 < wi * p * zi < 0x40_0000_0000_0000_0000 && 0 < p * zi * wi < 0x40_0000_0000_0000_0000)
        by (nonlinear_arith)
        requires
            0 < wi <= 0x1_0000_0000,
            p == 1_000_000,
            0 < zi <= 10000,
    ;
    let xc = Frac { num: sx * z, den: wi * p * zi };
    let yc = Frac { num: sy * z, den: p * zi * wi };
    let uv = camera_to_uv(xc, yc);
    let ghost ndc_s = ndc_of(px as int, py as int, w as int, h as int);
    let ghost cam_s = camera_of(
        ndc_s.0,
        ndc_s.1,
        zoom as int,
        pan_x as int,
        pan_y as int,
        w as int,
        h as int,
    );
    proof {
        // The camera point of `camera_of` is the computed one, with the vertical
        // component scaled by `h`.
        assert(cam_s.0 == xc@);
        assert(cam_s.1.0 == yc@.0 * h) by (nonlinear_arith)
            requires
                cam_s.1.0 == (ndc_s.1.0 * PAN_UNIT - pan_y * ndc_s.1.1) * ZOOM_UNIT * h,
                yc@.0 == (ndc_s.1.0 * PAN_UNIT - pan_y * h) * ZOOM_UNIT,
                ndc_s.1.1 == h,
        ;
        assert(cam_s.1.1 == yc@.1 * h) by (nonlinear_arith)
            requires
                cam_s.1.1 == h * PAN_UNIT * zoom * w,
                yc@.1 == PAN_UNIT * zoom * w,
        ;
        let vn = yc@.1 - yc@.0;
        let vd = 2 * yc@.1;
        assert((cam_s.1.1 - cam_s.1.0) == vn * h && 2 * cam_s.1.1 == vd * h) by (nonlinear_arith)
            requires
                cam_s.1.0 == yc@.0 * h,
                cam_s.1.1 == yc@.1 * h,
                vn == yc@.1 - yc@.0,
                vd == 2 * yc@.1,
        ;
        assert((0 <= vn * h <= vd * h) <==> (0 <= vn <= vd)) by (nonlinear_arith)
            requires
                h > 0,
        ;
    }
    match uv {
        Some(uv) => {
            let t = uv_to_texel(uv.0, uv.1, width, height);
            proof {
                let vn = uv.1.num as int;
                let vd = uv.1.den as int;
                let hh = height as int;
                assert(vn * h * hh == (vn * hh) * h) by (nonlinear_arith);
                assert(0 <= vn * hh) by (nonlinear_arith)
                    requires
                        0 <= vn,
                        0 <= hh,
                ;
                lemma_cancel(vn * hh, vd, h as int);
                assert((vn * h) * hh / (vd * h) == (vn * hh) / vd);
            }
            Some(t)
        },
        None => None,
    }
}

} // verus!

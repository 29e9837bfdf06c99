//! The viewport and the camera's pan and zoom.
use vstd::prelude::*;
use crate::transform::{PAN_UNIT, ZOOM_UNIT};

verus! {

/// Lowest zoom, in thousandths (0.1).
pub const MIN_ZOOM: u32 = 100;

/// Highest zoom, in thousandths (10.0).
pub const MAX_ZOOM: u32 = 10000;

/// Zoom change per line of wheel scrolling, in thousandths (0.1).
pub const ZOOM_PER_LINE: i64 = 100;

/// Zoom change per pixel of wheel scrolling, in thousandths (0.001).
pub const ZOOM_PER_PIXEL: i64 = 1;

/// Size of the drawable area, in pixels.
#[derive(Clone, Copy, PartialEq, Eq, Debug)]
pub struct Viewport {
    pub width: u32,
    pub height: u32,
}

impl Viewport {
    /// Both sides are positive.
    pub open spec fn wf(&self) -> bool {
        self.width > 0 && self.height > 0
    }

    /// Takes the new size `(width, height)` unless it has no area; returns
    /// whether it was taken.
    pub fn resize(&mut self, width: u32, height: u32) -> (applied: bool)
        ensures
            applied == (width > 0 && height > 0),
            applied ==> *final(self) == (Viewport { width, height }),
            !applied ==> *final(self) == *old(self),
    {
        if width > 0 && height > 0 {
            self.width = width;
            self.height = height;
            true
        } else {
            false
        }
    }
}

/// `z` clamped to the zoom range.
pub open spec fn clamp_zoom(z: int) -> int {
    if z < MIN_ZOOM {
        MIN_ZOOM as int
    } else if z > MAX_ZOOM {
        MAX_ZOOM as int
    } else {
        z
    }
}

/// The zoom after the wheel steps `deltas` (thousandths), in order, from `z`.
pub open spec fn zoom_after(z: int, deltas: Seq<int>) -> int
    decreases deltas.len(),
{
    if deltas.len() == 0 {
        z
    } else {
        zoom_after(clamp_zoom(z + deltas[0]), deltas.drop_first())
    }
}

/// From a zoom within range, every sequence of wheel steps leaves the zoom
/// within range.
pub proof fn lemma_zoom_stays_in_range(z: int, deltas: Seq<int>)
    requires
        MIN_ZOOM <= z <= MAX_ZOOM,
    ensures
        MIN_ZOOM <= zoom_after(z, deltas) <= MAX_ZOOM,
    decreases deltas.len(),
{
    if deltas.len() > 0 {
        lemma_zoom_stays_in_range(clamp_zoom(z + deltas[0]), deltas.drop_first());
    }
}

/// Pan and zoom of the page. The zoom is in thousandths, the pan in
/// millionths of an NDC unit.
#[derive(Clone, Copy, PartialEq, Eq, Debug)]
pub struct Camera {
    pub zoom: u32,
    pub pan_x: i64,
    pub pan_y: i64,
}

/// `v`, held within the range of `i64`.
pub open spec fn saturate(v: int) -> int {
    if v < i64::MIN {
        i64::MIN as int
    } else if v > i64::MAX {
        i64::MAX as int
    } else {
        v
    }
}

fn saturating_add(a: i64, b: i64) -> (r: i64)
    ensures
        r == saturate(a + b),
{
    let s = a as i128 + b as i128;
    if s < i64::MIN as i128 {
        i64::MIN
    } else if s > i64::MAX as i128 {
        i64::MAX
    } else {
        s as i64
    }
}

impl Camera {
    /// The zoom lies within `[MIN_ZOOM, MAX_ZOOM]`.
    pub open spec fn wf(&self) -> bool {
        MIN_ZOOM <= self.zoom <= MAX_ZOOM
    }

    /// Zoom 1.0, no pan.
    pub fn new() -> (r: Camera)
        ensures
            r.wf(),
            r.zoom == ZOOM_UNIT,
            r.pan_x == 0,
            r.pan_y == 0,
    {
        Camera { zoom: ZOOM_UNIT, pan_x: 0, pan_y: 0 }
    }

    /// Changes the zoom by `delta` thousandths, clamped to the zoom range.
    pub fn scroll(&mut self, delta: i64)
        ensures
            final(self).wf(),
            final(self).zoom == clamp_zoom(old(self).zoom + delta),
            final(self).pan_x == old(self).pan_x,
            final(self).pan_y == old(self).pan_y,
    {
        let z = self.zoom as i128 + delta as i128;
        self.zoom = if z < MIN_ZOOM as i128 {
            MIN_ZOOM
        } else if z > MAX_ZOOM as i128 {
            MAX_ZOOM
        } else {
            z as u32
        };
    }

    /// Moves the pan by `(dx, dy)` millionths of NDC, saturating at the
    /// range of `i64`.
    pub fn pan_by(&mut self, dx: i64, dy: i64)
        ensures
            final(self).zoom == old(self).zoom,
            final(self).pan_x == saturate(old(self).pan_x + dx),
            final(self).pan_y == saturate(old(self).pan_y + dy),
    {
        self.pan_x = saturating_add(self.pan_x, dx);
        self.pan_y = saturating_add(self.pan_y, dy);
    }
}

/// The NDC distance, in millionths and rounded toward zero, that a move of
/// `d` pixels spans across a viewport side of `n` pixels: `2 * d / n`.
pub open spec fn ndc_delta(d: int, n: int) -> int {
    if d >= 0 {
        2 * d * PAN_UNIT / n
    } else {
        -((2 * -d * PAN_UNIT) / n)
    }
}

/// NDC distance, in millionths, of a move of `d` pixels across a viewport side
/// of `n` pixels.
pub fn pixels_to_ndc_delta(d: i64, n: u32) -> (r: i64)
    requires
        n > 0,
    ensures
        r == saturate(ndc_delta(d as int, n as int)),
{
    let m = if d >= 0 {
        d as i128
    } else {
        -(d as i128)
    };
    assert(0 <= 2 * m * 1_000_000 <= 0x1_0000_0000_0000_0000_0000_0000) by (nonlinear_arith)
        requires
            0 <= m <= 0x8000_0000_0000_0000,
    ;
    let a = 2 * m * (PAN_UNIT as i128) / (n as i128);
    assert(a <= 2 * m * 1_000_000) by (nonlinear_arith)
        requires
            a == 2 * m * 1_000_000 / (n as int),
            n >= 1,
            m >= 0,
    ;
    let q = if d >= 0 {
        a
    } else {
        -a
    };
    if q < i64::MIN as i128 {
        i64::MIN
    } else if q > i64::MAX as i128 {
        i64::MAX
    } else {
        q as i64
    }
}

} // verus!

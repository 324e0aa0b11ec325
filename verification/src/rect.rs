//! The axis-aligned inclusive rectangle used as camera/viewport, and its
//! pan and zoom operations.
//!
//! Cameras produced by the engine are always square. Zooming changes the side
//! length while keeping the center as closely as integer arithmetic allows,
//! and never produces a side length below 1.

use vstd::prelude::*;
use crate::coordinate::CartesianP;

verus! {

/// A bound on camera coordinates generous enough for any real viewport;
/// keeping coordinates within it makes every camera computation fit in i64.
pub const RECT_BOUND: i64 = 0x2000000000000000;

/// An inclusive axis-aligned rectangle: both corners belong to it.
#[derive(Debug, PartialEq, Eq, Structural, Clone, Copy)]
pub struct Rect {
    pub x1: i64,
    pub y1: i64,
    pub x2: i64,
    pub y2: i64,
}

impl Rect {
    /// Builds the rectangle with corners `(x1, y1)` and `(x2, y2)`.
    pub fn from(x1: i64, y1: i64, x2: i64, y2: i64) -> (r: Rect)
        ensures
            r == (Rect { x1, y1, x2, y2 }),
    {
        Rect { x1, y1, x2, y2 }
    }
}

/// All four coordinates of `r` lie within `RECT_BOUND`.
pub open spec fn rect_in_range(r: Rect) -> bool {
    &&& -RECT_BOUND <= r.x1 <= RECT_BOUND
    &&& -RECT_BOUND <= r.y1 <= RECT_BOUND
    &&& -RECT_BOUND <= r.x2 <= RECT_BOUND
    &&& -RECT_BOUND <= r.y2 <= RECT_BOUND
}

/// The inclusive horizontal span of `r`.
pub open spec fn spec_length(r: Rect) -> int {
    r.x2 - r.x1 + 1
}

/// Integer division by two that rounds toward zero.
pub open spec fn spec_half_toward_zero(a: int) -> int {
    if a >= 0 {
        a / 2
    } else {
        -((-a) / 2)
    }
}

/// The integer midpoint of `r`, each axis rounded toward zero.
pub open spec fn spec_center(r: Rect) -> (int, int) {
    (spec_half_toward_zero(r.x1 + r.x2), spec_half_toward_zero(r.y1 + r.y2))
}

/// One axis of a zoom: the inclusive span `[lo, hi]` resized to `target`
/// cells, split so that the low side moves by `diff / 2` (rounded toward
/// zero) and the high side takes the rest.
pub open spec fn spec_zoom_axis(lo: int, hi: int, target: int) -> (int, int) {
    let diff = target - (hi - lo + 1);
    let start = spec_half_toward_zero(diff);
    let end = diff - start;
    (lo - start, hi + end)
}

/// `r` resized to side `target` on both axes, clamped to a side of at
/// least 1, centered as `spec_zoom_axis` describes.
pub open spec fn spec_zoom_to(r: Rect, target: int) -> Rect {
    let t = if target < 1 { 1 } else { target };
    let x = spec_zoom_axis(r.x1 as int, r.x2 as int, t);
    let y = spec_zoom_axis(r.y1 as int, r.y2 as int, t);
    Rect { x1: x.0 as i64, y1: y.0 as i64, x2: x.1 as i64, y2: y.1 as i64 }
}

/// Division of `a` by two, rounding toward zero, as Rust's `/` does.
fn half_toward_zero(a: i64) -> (r: i64)
    requires
        i64::MIN < a,
    ensures
        r as int == spec_half_toward_zero(a as int),
{
    if a >= 0 {
        a / 2
    } else {
        -((-a) / 2)
    }
}

/// The inclusive side length of `r` along x: `x2 - x1 + 1`.
pub fn get_length(r: &Rect) -> (len: i64)
    requires
        r.x2 - r.x1 + 1 <= i64::MAX,
        r.x1 <= r.x2,
    ensures
        len as int == spec_length(*r),
{
    r.x2 - r.x1 + 1
}

/// The integer midpoint of `r`, biased toward zero on even spans.
pub fn get_center(r: &Rect) -> (c: CartesianP)
    requires
        rect_in_range(*r),
    ensures
        (c.x as int, c.y as int) == spec_center(*r),
{
    CartesianP { x: half_toward_zero(r.x1 + r.x2), y: half_toward_zero(r.y1 + r.y2) }
}

/// Translates both corners of `r` by `delta`: a pure pan, no resize.
pub fn move_by(r: &mut Rect, delta: CartesianP)
    requires
        i64::MIN <= old(r).x1 + delta.x <= i64::MAX,
        i64::MIN <= old(r).x2 + delta.x <= i64::MAX,
        i64::MIN <= old(r).y1 + delta.y <= i64::MAX,
        i64::MIN <= old(r).y2 + delta.y <= i64::MAX,
    ensures
        final(r).x1 == old(r).x1 + delta.x,
        final(r).y1 == old(r).y1 + delta.y,
        final(r).x2 == old(r).x2 + delta.x,
        final(r).y2 == old(r).y2 + delta.y,
{
    r.x1 = r.x1 + delta.x;
    r.y1 = r.y1 + delta.y;
    r.x2 = r.x2 + delta.x;
    r.y2 = r.y2 + delta.y;
}

/// Resizes `r` to side `target` on both axes (at least 1), keeping the
/// center as closely as integer arithmetic allows.
fn zoom_axes(r: &mut Rect, target: i64)
    requires
        rect_in_range(*old(r)),
        1 <= target <= RECT_BOUND,
    ensures
        *final(r) == spec_zoom_to(*old(r), target as int),
{
    let diff_x = target - (r.x2 - r.x1 + 1);
    let start_x = half_toward_zero(diff_x);
    let end_x = diff_x - start_x;
    let diff_y = target - (r.y2 - r.y1 + 1);
    let start_y = half_toward_zero(diff_y);
    let end_y = diff_y - start_y;
    r.x1 = r.x1 - start_x;
    r.x2 = r.x2 + end_x;
    r.y1 = r.y1 - start_y;
    r.y2 = r.y2 + end_y;
}

/// Shrinks the square `r` by one cell on every side, never below side 1.
pub fn zoom_in(r: &mut Rect)
    requires
        rect_in_range(*old(r)),
        old(r).x1 <= old(r).x2,
        spec_length(*old(r)) <= RECT_BOUND,
    ensures
        *final(r) == spec_zoom_to(*old(r), spec_length(*old(r)) - 2),
{
    let len = r.x2 - r.x1 + 1;
    let target = if len - 2 < 1 { 1 } else { len - 2 };
    zoom_axes(r, target);
}

/// Grows the square `r` by one cell on every side.
pub fn zoom_out(r: &mut Rect)
    requires
        rect_in_range(*old(r)),
        old(r).x1 <= old(r).x2,
        spec_length(*old(r)) + 2 <= RECT_BOUND,
    ensures
        *final(r) == spec_zoom_to(*old(r), spec_length(*old(r)) + 2),
{
    let len = r.x2 - r.x1 + 1;
    zoom_axes(r, len + 2);
}

/// Resizes the square `r` to an exact side length, centered on its
/// current center; a zero request is clamped to side 1.
pub fn zoom_to(r: &mut Rect, new_size: u16)
    requires
        rect_in_range(*old(r)),
    ensures
        *final(r) == spec_zoom_to(*old(r), new_size as int),
{
    let target: i64 = if new_size == 0 { 1 } else { new_size as i64 };
    zoom_axes(r, target);
}


/// The camera length as an i64-wide span, and the canvas split: the pixel
/// size of one grid cell, `dim / length` rounded down; remainder pixels are
/// unused margin.
pub open spec fn spec_subdivision_size(cam: Rect, dim: u16) -> int {
    (dim as int) / spec_length(cam)
}

/// The pixel size of one grid cell for camera `cam` on a square canvas of
/// `dim` pixels.
pub fn get_subdivision_size(cam: &Rect, dim: u16) -> (r: u16)
    requires
        cam.x1 <= cam.x2,
        cam.x2 - cam.x1 + 1 <= i64::MAX,
    ensures
        r as int == spec_subdivision_size(*cam, dim),
{
    let length = get_length(cam);
    let r = (dim as i64) / length;
    proof {
        vstd::arithmetic::div_mod::lemma_div_pos_is_pos(dim as int, length as int);
        vstd::arithmetic::div_mod::lemma_div_nonincreasing(dim as int, length as int);
    }
    r as u16
}

} // verus!

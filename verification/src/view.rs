//! The view transform: where the canvas sits inside the viewport, and
//! discrete, focal-point-anchored zooming.
//!
//! All rectangle coordinates are fixed-point subpixels ([`SUBPIXELS`] per
//! viewport pixel). The zoom scale table is fixed and descending, stored as
//! integers scaled by [`ZOOM_SCALE`]; its middle entry is the fit-to-viewport
//! baseline. A zoom step picks the next table entry, then rescales the canvas
//! rectangle about the pointer position by the ratio of the new scale to the
//! rectangle's current scale, so the canvas point under the pointer stays
//! fixed on screen. When the rescaled rectangle would degenerate or leave the
//! supported coordinate range, the rectangle is left as it was (the zoom
//! index still moves), rather than failing.

use vstd::prelude::*;
use vstd::arithmetic::div_mod::{
    lemma_div_is_ordered, lemma_div_multiples_vanish, lemma_div_pos_is_pos,
    lemma_fundamental_div_mod, lemma_fundamental_div_mod_converse, lemma_mod_bound,
};
use vstd::arithmetic::mul::{lemma_mul_inequality, lemma_mul_is_commutative};
use crate::math::floor_div_i128;

verus! {

/// Fixed-point subpixels per viewport pixel.
pub const SUBPIXELS: i64 = 1024;

/// Fixed-point scale of the zoom factor table: a table entry of `100_000`
/// means scale 1.
pub const ZOOM_SCALE: u64 = 100_000;

/// Number of entries in the zoom factor table.
pub const ZOOM_LEVEL_COUNT: u8 = 33;

/// Largest magnitude, in subpixels, that a canvas rectangle coordinate or
/// side may take.
pub const RECT_LIMIT: i64 = 0x100_0000_0000;

/// The zoom factor at a table index, scaled by [`ZOOM_SCALE`]: a descending
/// sweep from 256x down to about 1/256x, with 1x in the middle.
pub open spec fn spec_zoom_factor(level: int) -> int {
    if level <= 0 {
        25_600_000
    } else if level == 1 {
        18_000_000
    } else if level == 2 {
        12_800_000
    } else if level == 3 {
        9_000_000
    } else if level == 4 {
        6_400_000
    } else if level == 5 {
        4_500_000
    } else if level == 6 {
        3_200_000
    } else if level == 7 {
        2_300_000
    } else if level == 8 {
        1_600_000
    } else if level == 9 {
        1_100_000
    } else if level == 10 {
        800_000
    } else if level == 11 {
        550_000
    } else if level == 12 {
        400_000
    } else if level == 13 {
        300_000
    } else if level == 14 {
        200_000
    } else if level == 15 {
        150_000
    } else if level == 16 {
        100_000
    } else if level == 17 {
        66_700
    } else if level == 18 {
        50_000
    } else if level == 19 {
        33_300
    } else if level == 20 {
        25_000
    } else if level == 21 {
        18_200
    } else if level == 22 {
        12_500
    } else if level == 23 {
        9_090
    } else if level == 24 {
        6_250
    } else if level == 25 {
        4_350
    } else if level == 26 {
        3_120
    } else if level == 27 {
        2_220
    } else if level == 28 {
        1_560
    } else if level == 29 {
        1_110
    } else if level == 30 {
        781
    } else if level == 31 {
        556
    } else {
        391
    }
}

/// Look up the zoom factor for a table index.
pub fn zoom_factor(level: u8) -> (f: u64)
    requires
        level < 33,
    ensures
        f == spec_zoom_factor(level as int),
        391 <= f <= 25_600_000,
{
    if level == 0 {
        25_600_000
    } else if level == 1 {
        18_000_000
    } else if level == 2 {
        12_800_000
    } else if level == 3 {
        9_000_000
    } else if level == 4 {
        6_400_000
    } else if level == 5 {
        4_500_000
    } else if level == 6 {
        3_200_000
    } else if level == 7 {
        2_300_000
    } else if level == 8 {
        1_600_000
    } else if level == 9 {
        1_100_000
    } else if level == 10 {
        800_000
    } else if level == 11 {
        550_000
    } else if level == 12 {
        400_000
    } else if level == 13 {
        300_000
    } else if level == 14 {
        200_000
    } else if level == 15 {
        150_000
    } else if level == 16 {
        100_000
    } else if level == 17 {
        66_700
    } else if level == 18 {
        50_000
    } else if level == 19 {
        33_300
    } else if level == 20 {
        25_000
    } else if level == 21 {
        18_200
    } else if level == 22 {
        12_500
    } else if level == 23 {
        9_090
    } else if level == 24 {
        6_250
    } else if level == 25 {
        4_350
    } else if level == 26 {
        3_120
    } else if level == 27 {
        2_220
    } else if level == 28 {
        1_560
    } else if level == 29 {
        1_110
    } else if level == 30 {
        781
    } else if level == 31 {
        556
    } else {
        391
    }
}

/// The zoom table is strictly descending: a lower index always means a
/// strictly larger scale.
pub proof fn lemma_zoom_table_descending(i: int, j: int)
    requires
        0 <= i < j <= 32,
    ensures
        spec_zoom_factor(i) > spec_zoom_factor(j),
{
}

/// The canvas rectangle: position and size of the canvas within the
/// viewport, in subpixels.
#[derive(Clone, Copy, Debug, PartialEq, Eq, Structural)]
pub struct CanvasRect {
    pub min_x: i64,
    pub min_y: i64,
    pub w: i64,
    pub h: i64,
}

impl CanvasRect {
    /// The rectangle has positive size and stays within the supported
    /// coordinate range.
    pub open spec fn wf(self) -> bool {
        &&& 0 < self.w <= RECT_LIMIT
        &&& 0 < self.h <= RECT_LIMIT
        &&& -RECT_LIMIT <= self.min_x <= RECT_LIMIT
        &&& -RECT_LIMIT <= self.min_y <= RECT_LIMIT
    }
}

/// `v` scaled about `pivot` by the rational factor `n / d`, rounding toward
/// negative infinity.
pub open spec fn spec_scale_about(v: int, pivot: int, n: int, d: int) -> int {
    pivot + (v - pivot) * n / d
}

/// Scaling `rect` about `(px, py)` by `n / d` neither degenerates it nor
/// carries it outside the supported coordinate range.
pub open spec fn zoom_fits(rect: CanvasRect, n: int, d: int, px: int, py: int) -> bool {
    &&& 0 < rect.w * n / d <= RECT_LIMIT
    &&& 0 < rect.h * n / d <= RECT_LIMIT
    &&& -RECT_LIMIT <= spec_scale_about(rect.min_x as int, px, n, d) <= RECT_LIMIT
    &&& -RECT_LIMIT <= spec_scale_about(rect.min_y as int, py, n, d) <= RECT_LIMIT
}

/// `rect` scaled about `(px, py)` by `n / d` where that fits, else `rect`
/// unchanged (defensive clamping at the component boundary).
pub open spec fn spec_zoom_rect(rect: CanvasRect, n: int, d: int, px: int, py: int) -> CanvasRect {
    if zoom_fits(rect, n, d, px, py) {
        CanvasRect {
            min_x: spec_scale_about(rect.min_x as int, px, n, d) as i64,
            min_y: spec_scale_about(rect.min_y as int, py, n, d) as i64,
            w: (rect.w * n / d) as i64,
            h: (rect.h * n / d) as i64,
        }
    } else {
        rect
    }
}

/// The next zoom table index: zooming in steps toward index 0, zooming out
/// toward the last index, saturating at both ends.
pub open spec fn spec_next_level(level: int, zoom_in: bool) -> int {
    if zoom_in {
        if level > 0 {
            level - 1
        } else {
            0
        }
    } else {
        if level + 1 < 33 {
            level + 1
        } else {
            32
        }
    }
}

/// The fit-to-viewport size of the canvas, in subpixels: the viewport size
/// shrunk on one axis to the canvas's aspect ratio. Width component.
pub open spec fn spec_unscaled_w(vw: int, vh: int, cw: int, ch: int) -> int {
    if cw > ch {
        vw * SUBPIXELS
    } else {
        vh * SUBPIXELS * cw / ch
    }
}

/// As [`spec_unscaled_w`]; height component.
pub open spec fn spec_unscaled_h(vw: int, vh: int, cw: int, ch: int) -> int {
    if cw > ch {
        vw * SUBPIXELS * ch / cw
    } else {
        vh * SUBPIXELS
    }
}

/// Compute the fit-to-viewport canvas size in subpixels for a
/// `cw x ch`-pixel canvas inside a `vw x vh`-pixel viewport.
pub fn get_unscaled_canvas_size(vw: u32, vh: u32, cw: u32, ch: u32) -> (s: (i64, i64))
    requires
        0 < cw <= 0x8000,
        0 < ch <= 0x8000,
        vw <= 0x10000,
        vh <= 0x10000,
    ensures
        s.0 == spec_unscaled_w(vw as int, vh as int, cw as int, ch as int),
        s.1 == spec_unscaled_h(vw as int, vh as int, cw as int, ch as int),
        0 <= s.0 <= 0x400_0000,
        0 <= s.1 <= 0x400_0000,
{
    if cw > ch {
        let uw: u64 = (vw as u64) * 1024;
        proof {
            assert((uw as int) * (ch as int) <= 0x400_0000 * 0x8000) by (nonlinear_arith)
                requires
                    uw <= 0x400_0000,
                    ch <= 0x8000,
            ;
            lemma_scaled_axis_bound(uw as int, ch as int, cw as int);
        }
        let uh: u64 = uw * (ch as u64) / (cw as u64);
        (uw as i64, uh as i64)
    } else {
        let uh: u64 = (vh as u64) * 1024;
        proof {
            assert((uh as int) * (cw as int) <= 0x400_0000 * 0x8000) by (nonlinear_arith)
                requires
                    uh <= 0x400_0000,
                    cw <= 0x8000,
            ;
            lemma_scaled_axis_bound(uh as int, cw as int, ch as int);
        }
        let uw: u64 = uh * (cw as u64) / (ch as u64);
        (uw as i64, uh as i64)
    }
}

/// Shrinking one viewport axis by an aspect ratio at most one keeps it within
/// its original extent.
proof fn lemma_scaled_axis_bound(v: int, small: int, large: int)
    requires
        0 <= v,
        0 < small <= large,
    ensures
        0 <= v * small / large <= v,
{
    lemma_mul_inequality(small, large, v);
    lemma_mul_is_commutative(small, v);
    lemma_mul_is_commutative(large, v);
    lemma_div_is_ordered(v * small, v * large, large);
    lemma_div_multiples_vanish(v, large);
    lemma_div_pos_is_pos(v * small, large);
    assert(0 <= v * small) by (nonlinear_arith)
        requires
            0 <= v,
            0 < small,
    ;
}

/// The initial (and post-resize) canvas rectangle: the fit-to-viewport size,
/// centered in the viewport. A degenerate fit is widened to one subpixel so
/// the rectangle stays invertible.
pub open spec fn spec_initial_rect(vw: int, vh: int, cw: int, ch: int) -> CanvasRect {
    let uw = if spec_unscaled_w(vw, vh, cw, ch) > 0 {
        spec_unscaled_w(vw, vh, cw, ch)
    } else {
        1
    };
    let uh = if spec_unscaled_h(vw, vh, cw, ch) > 0 {
        spec_unscaled_h(vw, vh, cw, ch)
    } else {
        1
    };
    CanvasRect {
        min_x: ((vw * SUBPIXELS - uw) / 2) as i64,
        min_y: ((vh * SUBPIXELS - uh) / 2) as i64,
        w: uw as i64,
        h: uh as i64,
    }
}

/// The view state: viewport and canvas pixel sizes, the canvas rectangle,
/// and the current zoom table index.
pub struct ViewState {
    pub canvas_rect: CanvasRect,
    pub viewport_w: u32,
    pub viewport_h: u32,
    pub canvas_w: u32,
    pub canvas_h: u32,
    pub zoom_level: u8,
}

impl ViewState {
    /// Dimensions stay in their supported ranges, the zoom index stays inside
    /// the table, and the rectangle is well formed.
    pub open spec fn wf(self) -> bool {
        &&& self.zoom_level < 33
        &&& 0 < self.canvas_w <= 0x8000
        &&& 0 < self.canvas_h <= 0x8000
        &&& self.viewport_w <= 0x10000
        &&& self.viewport_h <= 0x10000
        &&& self.canvas_rect.wf()
    }

    /// A fresh view of a `canvas_w x canvas_h` canvas in a
    /// `viewport_w x viewport_h` viewport: fit-to-viewport rectangle,
    /// centered zoom baseline.
    pub fn new(viewport_w: u32, viewport_h: u32, canvas_w: u32, canvas_h: u32) -> (v: ViewState)
        requires
            0 < canvas_w <= 0x8000,
            0 < canvas_h <= 0x8000,
            viewport_w <= 0x10000,
            viewport_h <= 0x10000,
        ensures
            v.wf(),
            v.viewport_w == viewport_w,
            v.viewport_h == viewport_h,
            v.canvas_w == canvas_w,
            v.canvas_h == canvas_h,
            v.zoom_level == 33int / 2 + 1,
            v.canvas_rect == spec_initial_rect(
                viewport_w as int,
                viewport_h as int,
                canvas_w as int,
                canvas_h as int,
            ),
    {
        let mut v = ViewState {
            canvas_rect: CanvasRect { min_x: 0, min_y: 0, w: 1, h: 1 },
            viewport_w,
            viewport_h,
            canvas_w,
            canvas_h,
            zoom_level: 0,
        };
        v.handle_resize(viewport_w, viewport_h);
        v
    }

    /// React to a viewport size change: remember the new size, recenter the
    /// canvas at the fit-to-viewport rectangle, and return the zoom index to
    /// its baseline.
    pub fn handle_resize(&mut self, viewport_w: u32, viewport_h: u32)
        requires
            0 < old(self).canvas_w <= 0x8000,
            0 < old(self).canvas_h <= 0x8000,
            viewport_w <= 0x10000,
            viewport_h <= 0x10000,
        ensures
            final(self).wf(),
            final(self).viewport_w == viewport_w,
            final(self).viewport_h == viewport_h,
            final(self).canvas_w == old(self).canvas_w,
            final(self).canvas_h == old(self).canvas_h,
            final(self).zoom_level == 33int / 2 + 1,
            final(self).canvas_rect == spec_initial_rect(
                viewport_w as int,
                viewport_h as int,
                old(self).canvas_w as int,
                old(self).canvas_h as int,
            ),
    {
        let (uw0, uh0) = get_unscaled_canvas_size(
            viewport_w,
            viewport_h,
            self.canvas_w,
            self.canvas_h,
        );
        let uw: i64 = if uw0 > 0 {
            uw0
        } else {
            1
        };
        let uh: i64 = if uh0 > 0 {
            uh0
        } else {
            1
        };
        let min_x: i64 = floor_div_i128((viewport_w as i128) * 1024 - (uw as i128), 2) as i64;
        let min_y: i64 = floor_div_i128((viewport_h as i128) * 1024 - (uh as i128), 2) as i64;
        self.viewport_w = viewport_w;
        self.viewport_h = viewport_h;
        self.zoom_level = 33 / 2 + 1;
        self.canvas_rect = CanvasRect { min_x, min_y, w: uw, h: uh };
    }

    /// Pan: translate the canvas rectangle by a drag delta. No clamping
    /// against the viewport — the canvas may be dragged fully off-screen —
    /// only the supported coordinate range is required.
    pub fn translate_target_view(&mut self, dx: i64, dy: i64)
        requires
            old(self).wf(),
            -RECT_LIMIT <= old(self).canvas_rect.min_x + dx <= RECT_LIMIT,
            -RECT_LIMIT <= old(self).canvas_rect.min_y + dy <= RECT_LIMIT,
        ensures
            final(self).wf(),
            final(self).canvas_rect.min_x == old(self).canvas_rect.min_x + dx,
            final(self).canvas_rect.min_y == old(self).canvas_rect.min_y + dy,
            final(self).canvas_rect.w == old(self).canvas_rect.w,
            final(self).canvas_rect.h == old(self).canvas_rect.h,
            final(self).zoom_level == old(self).zoom_level,
            final(self).viewport_w == old(self).viewport_w,
            final(self).viewport_h == old(self).viewport_h,
            final(self).canvas_w == old(self).canvas_w,
            final(self).canvas_h == old(self).canvas_h,
    {
        self.canvas_rect = CanvasRect {
            min_x: self.canvas_rect.min_x + dx,
            min_y: self.canvas_rect.min_y + dy,
            w: self.canvas_rect.w,
            h: self.canvas_rect.h,
        };
    }

    /// One zoom step, anchored at the pointer: move the zoom index one table
    /// entry (saturating at the ends), then rescale the canvas rectangle
    /// about the pointer by the ratio of the new table scale to the
    /// rectangle's current scale, keeping the canvas point under the pointer
    /// fixed on screen. A rescale that would not fit leaves the rectangle
    /// unchanged.
    pub fn apply_zoom(&mut self, zoom_in: bool, pointer_x: i64, pointer_y: i64)
        requires
            old(self).wf(),
            -0x1_0000_0000_0000 <= pointer_x <= 0x1_0000_0000_0000,
            -0x1_0000_0000_0000 <= pointer_y <= 0x1_0000_0000_0000,
        ensures
            final(self).wf(),
            final(self).viewport_w == old(self).viewport_w,
            final(self).viewport_h == old(self).viewport_h,
            final(self).canvas_w == old(self).canvas_w,
            final(self).canvas_h == old(self).canvas_h,
            final(self).zoom_level == spec_next_level(old(self).zoom_level as int, zoom_in),
            final(self).canvas_rect == spec_zoom_rect(
                old(self).canvas_rect,
                spec_zoom_factor(spec_next_level(old(self).zoom_level as int, zoom_in))
                    * spec_unscaled_w(
                    old(self).viewport_w as int,
                    old(self).viewport_h as int,
                    old(self).canvas_w as int,
                    old(self).canvas_h as int,
                ),
                ZOOM_SCALE * old(self).canvas_rect.w,
                pointer_x as int,
                pointer_y as int,
            ),
    {
        let new_level: u8 = if zoom_in {
            if self.zoom_level > 0 {
                self.zoom_level - 1
            } else {
                0
            }
        } else {
            if self.zoom_level + 1 < 33 {
                self.zoom_level + 1
            } else {
                32
            }
        };
        let (uw, _uh) = get_unscaled_canvas_size(
            self.viewport_w,
            self.viewport_h,
            self.canvas_w,
            self.canvas_h,
        );
        let zf: u64 = zoom_factor(new_level);
        proof {
            assert((zf as int) * (uw as int) <= 25_600_000 * 0x400_0000) by (nonlinear_arith)
                requires
                    zf <= 25_600_000,
                    0 <= uw <= 0x400_0000,
            ;
        }
        let n: i128 = (zf as i128) * (uw as i128);
        let d: i128 = 100_000i128 * (self.canvas_rect.w as i128);
        proof {
            assert((self.canvas_rect.w as int) * (n as int) <= 0x100_0000_0000 * (25_600_000
                * 0x400_0000) && (self.canvas_rect.h as int) * (n as int) <= 0x100_0000_0000 * (
            25_600_000 * 0x400_0000) && (self.canvas_rect.w as int) * (n as int) >= 0 && (
            self.canvas_rect.h as int) * (n as int) >= 0) by (nonlinear_arith)
                requires
                    0 < self.canvas_rect.w <= 0x100_0000_0000,
                    0 < self.canvas_rect.h <= 0x100_0000_0000,
                    0 <= n <= 25_600_000 * 0x400_0000,
            ;
        }
        let w2: i128 = floor_div_i128((self.canvas_rect.w as i128) * n, d);
        let h2: i128 = floor_div_i128((self.canvas_rect.h as i128) * n, d);
        let ax: i128 = (self.canvas_rect.min_x as i128) - (pointer_x as i128);
        let ay: i128 = (self.canvas_rect.min_y as i128) - (pointer_y as i128);
        proof {
            assert(-0x2_0000_0000_0000 * (25_600_000 * 0x400_0000) <= ax * n <= 0x2_0000_0000_0000
                * (25_600_000 * 0x400_0000) && -0x2_0000_0000_0000 * (25_600_000 * 0x400_0000)
                <= ay * n <= 0x2_0000_0000_0000 * (25_600_000 * 0x400_0000)) by (nonlinear_arith)
                requires
                    -0x2_0000_0000_0000 <= ax <= 0x2_0000_0000_0000,
                    -0x2_0000_0000_0000 <= ay <= 0x2_0000_0000_0000,
                    0 <= n <= 25_600_000 * 0x400_0000,
            ;
        }
        let qx: i128 = floor_div_i128(ax * n, d);
        let qy: i128 = floor_div_i128(ay * n, d);
        proof {
            crate::math::lemma_div_bounded_magnitude(
                ax * n,
                d as int,
                0x2_0000_0000_0000int * (25_600_000 * 0x400_0000),
            );
            crate::math::lemma_div_bounded_magnitude(
                ay * n,
                d as int,
                0x2_0000_0000_0000int * (25_600_000 * 0x400_0000),
            );
        }
        let mx2: i128 = (pointer_x as i128) + qx;
        let my2: i128 = (pointer_y as i128) + qy;
        let lim: i128 = RECT_LIMIT as i128;
        if 0 < w2 && w2 <= lim && 0 < h2 && h2 <= lim && -lim <= mx2 && mx2 <= lim && -lim <= my2
            && my2 <= lim {
            self.canvas_rect = CanvasRect {
                min_x: mx2 as i64,
                min_y: my2 as i64,
                w: w2 as i64,
                h: h2 as i64,
            };
        }
        self.zoom_level = new_level;
    }
}

} // verus!

verus! {

/// The zoom index after a sequence of zoom events (`true` zooms in, `false`
/// zooms out), each stepping as [`spec_next_level`].
pub open spec fn spec_level_after(start: int, events: Seq<bool>) -> int
    decreases events.len(),
{
    if events.len() == 0 {
        start
    } else {
        spec_level_after(spec_next_level(start, events[0]), events.drop_first())
    }
}

/// The zoom index never leaves the table: however many zoom-in and zoom-out
/// events arrive in whatever order, it stays within `0..33`.
pub proof fn lemma_zoom_level_in_range(start: int, events: Seq<bool>)
    requires
        0 <= start < 33,
    ensures
        0 <= spec_level_after(start, events) < 33,
    decreases events.len(),
{
    if events.len() > 0 {
        lemma_zoom_level_in_range(spec_next_level(start, events[0]), events.drop_first());
    }
}

/// A common positive factor of numerator and denominator cancels under floor
/// division.
proof fn lemma_cancel_common_factor(aa: int, dd: int, u: int)
    requires
        dd > 0,
        u > 0,
    ensures
        (aa * u) / (dd * u) == aa / dd,
{
    let q = aa / dd;
    let r = aa % dd;
    lemma_fundamental_div_mod(aa, dd);
    lemma_mod_bound(aa, dd);
    assert(aa * u == (dd * u) * q + r * u && 0 <= r * u < dd * u) by (nonlinear_arith)
        requires
            aa == dd * q + r,
            0 <= r < dd,
            u > 0,
    ;
    lemma_fundamental_div_mod_converse(aa * u, dd * u, q, r * u);
}

/// Scaling up by `t1 / t0` and back down by `t0 / t1`, rounding toward
/// negative infinity each time, loses at most one unit.
proof fn lemma_scale_round_trip(a: int, t0: int, t1: int)
    requires
        0 < t0 <= t1,
    ensures
        a - 1 <= ((a * t1) / t0) * t0 / t1 <= a,
{
    let a1 = (a * t1) / t0;
    let r = (a * t1) % t0;
    lemma_fundamental_div_mod(a * t1, t0);
    lemma_mod_bound(a * t1, t0);
    if r == 0 {
        assert(a1 * t0 == t1 * a + 0) by (nonlinear_arith)
            requires
                a * t1 == t0 * a1,
        ;
        lemma_fundamental_div_mod_converse(a1 * t0, t1, a, 0);
    } else {
        assert(a1 * t0 == t1 * (a - 1) + (t1 - r)) by (nonlinear_arith)
            requires
                a * t1 == t0 * a1 + r,
        ;
        lemma_fundamental_div_mod_converse(a1 * t0, t1, a - 1, t1 - r);
    }
}

/// Zooming in one step and immediately back out — a pair of zoom events that
/// returns to the original table index — anchored at the same pointer,
/// restores the canvas rectangle: its width exactly, and its height and
/// corner to within one subpixel. `t0` is the table scale the rectangle
/// matches exactly, `t1` the finer scale of the intermediate step, `uw` the
/// fit-to-viewport width; the finer scale must also land on whole subpixels,
/// and neither step may be clamped.
pub proof fn lemma_zoom_round_trip(rect: CanvasRect, uw: int, px: int, py: int, t0: int, t1: int)
    requires
        rect.wf(),
        0 < t0 <= t1,
        0 < uw,
        ZOOM_SCALE * rect.w == t0 * uw,
        (t1 * uw) % (ZOOM_SCALE as int) == 0,
        zoom_fits(rect, t1 * uw, ZOOM_SCALE * rect.w, px, py),
        zoom_fits(
            spec_zoom_rect(rect, t1 * uw, ZOOM_SCALE * rect.w, px, py),
            t0 * uw,
            ZOOM_SCALE * spec_zoom_rect(rect, t1 * uw, ZOOM_SCALE * rect.w, px, py).w,
            px,
            py,
        ),
    ensures
        ({
            let r1 = spec_zoom_rect(rect, t1 * uw, ZOOM_SCALE * rect.w, px, py);
            let r2 = spec_zoom_rect(r1, t0 * uw, ZOOM_SCALE * r1.w, px, py);
            &&& r2.w == rect.w
            &&& rect.h - 1 <= r2.h <= rect.h
            &&& rect.min_x - 1 <= r2.min_x <= rect.min_x
            &&& rect.min_y - 1 <= r2.min_y <= rect.min_y
        }),
{
    let s = ZOOM_SCALE as int;
    let w = rect.w as int;
    let h = rect.h as int;
    let n1 = t1 * uw;
    let d1 = s * w;
    let r1 = spec_zoom_rect(rect, n1, d1, px, py);

    // Step one: the rectangle scaled by t1*uw / (s*w). Because s*w == t0*uw,
    // the factor is exactly t1/t0 after cancelling uw.
    let w1 = w * n1 / d1;
    assert(w * n1 == n1 * w && d1 == s * w) by (nonlinear_arith)
        requires
            n1 == t1 * uw,
            d1 == s * w,
    ;
    lemma_cancel_common_factor(n1, s, w);
    assert(w1 == n1 / s);
    // The divisibility hypothesis makes the new width exact: s * w1 == n1.
    lemma_fundamental_div_mod(n1, s);
    assert(s * w1 == n1);

    let a_h = h * n1 / d1;
    assert(h * n1 == (h * t1) * uw && d1 == t0 * uw) by (nonlinear_arith)
        requires
            n1 == t1 * uw,
            d1 == s * w,
            s * w == t0 * uw,
    ;
    lemma_cancel_common_factor(h * t1, t0, uw);
    assert(a_h == (h * t1) / t0);

    let ax = rect.min_x - px;
    let qx1 = ax * n1 / d1;
    assert(ax * n1 == (ax * t1) * uw) by (nonlinear_arith)
        requires
            n1 == t1 * uw,
    ;
    lemma_cancel_common_factor(ax * t1, t0, uw);
    assert(qx1 == (ax * t1) / t0);

    let ay = rect.min_y - py;
    let qy1 = ay * n1 / d1;
    assert(ay * n1 == (ay * t1) * uw) by (nonlinear_arith)
        requires
            n1 == t1 * uw,
    ;
    lemma_cancel_common_factor(ay * t1, t0, uw);
    assert(qy1 == (ay * t1) / t0);

    assert(r1.w == w1 && r1.h == a_h && r1.min_x == px + qx1 && r1.min_y == py + qy1);

    // Step two: scaling back by t0*uw / (s*w1) == t0/t1.
    let n2 = t0 * uw;
    let d2 = s * (r1.w as int);
    assert(d2 == n1);
    let r2 = spec_zoom_rect(r1, n2, d2, px, py);

    let w2 = (r1.w as int) * n2 / d2;
    assert((r1.w as int) * n2 == (w1 * t0) * uw && d2 == t1 * uw) by (nonlinear_arith)
        requires
            n2 == t0 * uw,
            d2 == n1,
            n1 == t1 * uw,
            r1.w == w1,
    ;
    lemma_cancel_common_factor(w1 * t0, t1, uw);
    assert(w2 == (w1 * t0) / t1);
    // s*w1 == t1*uw and s*w == t0*uw give w1*t0 == t1*w, so w2 == w exactly.
    assert(s * (w1 * t0) == s * (t1 * w)) by (nonlinear_arith)
        requires
            s * w1 == t1 * uw,
            s * w == t0 * uw,
    ;
    assert(w1 * t0 == t1 * w) by (nonlinear_arith)
        requires
            s * (w1 * t0) == s * (t1 * w),
            s > 0,
    ;
    lemma_div_multiples_vanish(w, t1);
    assert(w2 == w);

    let h2 = (r1.h as int) * n2 / d2;
    assert((r1.h as int) * n2 == (a_h * t0) * uw) by (nonlinear_arith)
        requires
            n2 == t0 * uw,
            r1.h == a_h,
    ;
    lemma_cancel_common_factor(a_h * t0, t1, uw);
    assert(h2 == (a_h * t0) / t1);
    lemma_scale_round_trip(h, t0, t1);
    assert(h - 1 <= h2 <= h);

    let qx2 = ((r1.min_x as int) - px) * n2 / d2;
    assert(((r1.min_x as int) - px) * n2 == (qx1 * t0) * uw) by (nonlinear_arith)
        requires
            n2 == t0 * uw,
            r1.min_x == px + qx1,
    ;
    lemma_cancel_common_factor(qx1 * t0, t1, uw);
    assert(qx2 == (qx1 * t0) / t1);
    lemma_scale_round_trip(ax, t0, t1);
    assert(ax - 1 <= qx2 <= ax);

    let qy2 = ((r1.min_y as int) - py) * n2 / d2;
    assert(((r1.min_y as int) - py) * n2 == (qy1 * t0) * uw) by (nonlinear_arith)
        requires
            n2 == t0 * uw,
            r1.min_y == py + qy1,
    ;
    lemma_cancel_common_factor(qy1 * t0, t1, uw);
    assert(qy2 == (qy1 * t0) / t1);
    lemma_scale_round_trip(ay, t0, t1);
    assert(ay - 1 <= qy2 <= ay);

    assert(r2.w == w2 && r2.h == h2 && r2.min_x == px + qx2 && r2.min_y == py + qy2);
}

} // verus!

//! The stroke gate: per-sample pointer state, and the distance-based spacing
//! of repeated stamp placements.
//!
//! Each input sample is classified as a dab (click), part of a drag, or no
//! contact, and folded into a [`BrushState`]. During a drag, Euclidean
//! distance (in whole canvas pixels, by exact integer square root)
//! accumulates from sample to sample; a stamp is placed exactly when the
//! accumulated distance since the last placement reaches
//! `radius * spacing / 100`, and the accumulator then resets to zero. A dab
//! always places one stamp; the first sample of a drag always places one.

use vstd::prelude::*;
use crate::canvas::Canvas;
use crate::math::{isqrt, lemma_sqrt_floor_exists, sqrt_floor, floor_div_i128};
use crate::patch::Patch;
use crate::stamp::{blob_patch_ok, stamped_pixel, Brush};
use crate::canvas::Rgb;
use crate::view::CanvasRect;

verus! {

/// Largest magnitude of a canvas-space pointer coordinate; positions mapped
/// from the viewport are clamped here.
pub const CANVAS_POS_LIMIT: i64 = 0x4000_0000;

/// A pointer position in whole canvas pixels (may lie outside the canvas).
#[derive(Clone, Copy, Debug, PartialEq, Eq, Structural)]
pub struct CanvasPos {
    pub x: i64,
    pub y: i64,
}

impl CanvasPos {
    /// The position stays inside the supported coordinate range.
    pub open spec fn wf(self) -> bool {
        &&& -CANVAS_POS_LIMIT <= self.x <= CANVAS_POS_LIMIT
        &&& -CANVAS_POS_LIMIT <= self.y <= CANVAS_POS_LIMIT
    }
}

/// The Euclidean distance between two canvas positions, rounded down to a
/// whole pixel.
pub open spec fn spec_dist(a: CanvasPos, b: CanvasPos) -> int {
    sqrt_floor((b.x - a.x) * (b.x - a.x) + (b.y - a.y) * (b.y - a.y))
}

/// Compute the whole-pixel Euclidean distance between two positions.
pub fn dist(a: CanvasPos, b: CanvasPos) -> (d: u64)
    requires
        a.wf(),
        b.wf(),
    ensures
        d == spec_dist(a, b),
        d <= 0xFFFF_FFFF,
{
    let dx: i64 = b.x - a.x;
    let dy: i64 = b.y - a.y;
    let dxu: u64 = if dx >= 0 {
        dx as u64
    } else {
        (-dx) as u64
    };
    let dyu: u64 = if dy >= 0 {
        dy as u64
    } else {
        (-dy) as u64
    };
    proof {
        assert((dxu as int) * (dxu as int) == (dx as int) * (dx as int) && (dyu as int) * (
        dyu as int) == (dy as int) * (dy as int) && (dxu as int) * (dxu as int)
            <= 0x4000_0000_0000_0000 && (dyu as int) * (dyu as int) <= 0x4000_0000_0000_0000)
            by (nonlinear_arith)
            requires
                dxu == dx || dxu == -dx,
                dyu == dy || dyu == -dy,
                -0x8000_0000 <= dx <= 0x8000_0000,
                -0x8000_0000 <= dy <= 0x8000_0000,
                dxu >= 0,
                dyu >= 0,
        ;
    }
    let dsq: u64 = dxu * dxu + dyu * dyu;
    isqrt(dsq)
}

/// What the pointer is doing, folded over the samples seen so far.
#[derive(Clone, Copy, Debug, PartialEq, Eq, Structural)]
pub enum BrushState {
    /// A drag in progress: the last position, the distance accumulated since
    /// the last placement, and whether this sample places a stamp.
    Stroking { pos: CanvasPos, stroked_distance: u64, splotch_ready: bool },
    /// A discrete click at a position; always places exactly one stamp.
    Dabbing { pos: CanvasPos },
    /// No contact.
    NonTouching,
}

/// The accumulated distance stays below the spacing threshold between
/// placements and resets to zero at each placement, and positions stay in
/// range.
pub open spec fn state_wf(state: BrushState, radius: int, spacing: int) -> bool {
    match state {
        BrushState::Stroking { pos, stroked_distance, splotch_ready } => {
            &&& pos.wf()
            &&& if splotch_ready {
                stroked_distance == 0
            } else {
                100 * stroked_distance < radius * spacing
            }
        },
        BrushState::Dabbing { pos } => pos.wf(),
        BrushState::NonTouching => true,
    }
}

/// One step of the stroke gate. `dabbing` and `stroking` classify the
/// sample; `pos` is the pointer in canvas pixels. A dab always paints; the
/// first drag sample always paints; a later drag sample paints exactly when
/// the accumulated drag distance reaches `radius * spacing / 100` pixels,
/// and then resets the accumulator.
pub open spec fn spec_update_brush_state(
    state: BrushState,
    dabbing: bool,
    stroking: bool,
    pos: CanvasPos,
    radius: int,
    spacing: int,
) -> BrushState {
    if !dabbing && !stroking {
        BrushState::NonTouching
    } else if dabbing {
        BrushState::Dabbing { pos }
    } else {
        match state {
            BrushState::Stroking { pos: last_pos, stroked_distance, .. } => {
                let total = stroked_distance + spec_dist(last_pos, pos);
                if 100 * total >= radius * spacing {
                    BrushState::Stroking { pos, stroked_distance: 0, splotch_ready: true }
                } else {
                    BrushState::Stroking {
                        pos,
                        stroked_distance: total as u64,
                        splotch_ready: false,
                    }
                }
            },
            _ => BrushState::Stroking { pos, stroked_distance: 0, splotch_ready: true },
        }
    }
}

/// The position a state paints at, if it paints at all: a dab always, a
/// drag sample exactly when the spacing threshold was reached.
pub open spec fn spec_paints(state: BrushState) -> Option<CanvasPos> {
    match state {
        BrushState::Dabbing { pos } => Some(pos),
        BrushState::Stroking { pos, splotch_ready: true, .. } => Some(pos),
        _ => None,
    }
}

/// One consolidated pointer sample, in viewport subpixels: whether the
/// primary button clicked (a dab), whether a drag is in progress, and where
/// the pointer is. When neither flag is set the position is ignored.
#[derive(Clone, Copy, Debug, PartialEq, Eq, Structural)]
pub struct InputSample {
    pub dabbing: bool,
    pub stroking: bool,
    pub pointer_x: i64,
    pub pointer_y: i64,
}

impl InputSample {
    /// The pointer stays inside the supported coordinate range.
    pub open spec fn wf(self) -> bool {
        &&& -0x1_0000_0000_0000 <= self.pointer_x <= 0x1_0000_0000_0000
        &&& -0x1_0000_0000_0000 <= self.pointer_y <= 0x1_0000_0000_0000
    }
}

/// Clamp a canvas coordinate to the supported range.
pub open spec fn spec_clamp_pos(v: int) -> int {
    if v < -CANVAS_POS_LIMIT {
        -CANVAS_POS_LIMIT as int
    } else if v > CANVAS_POS_LIMIT {
        CANVAS_POS_LIMIT as int
    } else {
        v
    }
}

/// A viewport position mapped into canvas pixels: the position relative to
/// the canvas rectangle, scaled by the canvas pixel size over the rectangle
/// size, rounded toward negative infinity, and clamped to the supported
/// range. Exact at the rectangle corners: the rectangle's minimum maps to
/// pixel 0 and its maximum to the full canvas size.
pub open spec fn spec_pos_on_target(
    px: int,
    py: int,
    rect: CanvasRect,
    cw: int,
    ch: int,
) -> CanvasPos {
    CanvasPos {
        x: spec_clamp_pos((px - rect.min_x) * cw / (rect.w as int)) as i64,
        y: spec_clamp_pos((py - rect.min_y) * ch / (rect.h as int)) as i64,
    }
}

/// The painting manager: the active brush, the stroke gate state, and the
/// spacing between stamps along a stroke, as a percentage of the radius.
pub struct Manager {
    pub brush: Brush,
    pub brush_state: BrushState,
    pub stroke_splotch_spacing: u32,
}

impl Manager {
    /// The brush is well formed and the stroke state respects the spacing
    /// threshold of this brush.
    pub open spec fn wf(self) -> bool {
        &&& self.brush.wf()
        &&& state_wf(
            self.brush_state,
            self.brush.radius as int,
            self.stroke_splotch_spacing as int,
        )
    }

    /// A manager with the default brush — radius 100, hardness 50, green —
    /// stamp spacing one fifth of the radius, and no contact.
    pub fn new() -> (m: Manager)
        ensures
            m.wf(),
            m.brush.radius == 100,
            m.brush.hardness == 50,
            m.brush.color == (Rgb { r: 0, g: 255, b: 0 }),
            m.brush_state == BrushState::NonTouching,
            m.stroke_splotch_spacing == 20,
    {
        let brush = Brush::new(100, 50, Rgb { r: 0, g: 255, b: 0 });
        Manager { brush, brush_state: BrushState::NonTouching, stroke_splotch_spacing: 20 }
    }

    /// Map a viewport position (subpixels) to canvas pixels through the
    /// canvas rectangle.
    pub fn pos_on_target(
        pointer_x: i64,
        pointer_y: i64,
        canvas_rect: &CanvasRect,
        target_dims: (u32, u32),
    ) -> (p: CanvasPos)
        requires
            canvas_rect.wf(),
            -0x1_0000_0000_0000 <= pointer_x <= 0x1_0000_0000_0000,
            -0x1_0000_0000_0000 <= pointer_y <= 0x1_0000_0000_0000,
            target_dims.0 <= 0x8000,
            target_dims.1 <= 0x8000,
        ensures
            p == spec_pos_on_target(
                pointer_x as int,
                pointer_y as int,
                *canvas_rect,
                target_dims.0 as int,
                target_dims.1 as int,
            ),
            p.wf(),
    {
        proof {
            let diff_x = (pointer_x as int) - (canvas_rect.min_x as int);
            let diff_y = (pointer_y as int) - (canvas_rect.min_y as int);
            assert(-0x2_0000_0000_0000 * 0x8000 <= diff_x * (target_dims.0 as int) <= 0x2_0000_0000_0000
                * 0x8000 && -0x2_0000_0000_0000 * 0x8000 <= diff_y * (target_dims.1 as int)
                <= 0x2_0000_0000_0000 * 0x8000) by (nonlinear_arith)
                requires
                    -0x2_0000_0000_0000 <= diff_x <= 0x2_0000_0000_0000,
                    -0x2_0000_0000_0000 <= diff_y <= 0x2_0000_0000_0000,
                    0 <= target_dims.0 <= 0x8000,
                    0 <= target_dims.1 <= 0x8000,
            ;
        }
        let qx: i128 = floor_div_i128(
            ((pointer_x as i128) - (canvas_rect.min_x as i128)) * (target_dims.0 as i128),
            canvas_rect.w as i128,
        );
        let qy: i128 = floor_div_i128(
            ((pointer_y as i128) - (canvas_rect.min_y as i128)) * (target_dims.1 as i128),
            canvas_rect.h as i128,
        );
        let lim: i128 = CANVAS_POS_LIMIT as i128;
        let x: i64 = if qx < -lim {
            -CANVAS_POS_LIMIT
        } else if qx > lim {
            CANVAS_POS_LIMIT
        } else {
            qx as i64
        };
        let y: i64 = if qy < -lim {
            -CANVAS_POS_LIMIT
        } else if qy > lim {
            CANVAS_POS_LIMIT
        } else {
            qy as i64
        };
        CanvasPos { x, y }
    }

    /// One step of the stroke gate on a raw input sample: classify the
    /// sample, map the pointer onto the canvas, and fold it into the state.
    pub fn update_brush_state(
        state: BrushState,
        input: &InputSample,
        radius: u32,
        spacing: u32,
        canvas_rect: &CanvasRect,
        target_dims: (u32, u32),
    ) -> (r: BrushState)
        requires
            state_wf(state, radius as int, spacing as int),
            input.wf(),
            canvas_rect.wf(),
            target_dims.0 <= 0x8000,
            target_dims.1 <= 0x8000,
        ensures
            r == spec_update_brush_state(
                state,
                input.dabbing,
                input.stroking,
                spec_pos_on_target(
                    input.pointer_x as int,
                    input.pointer_y as int,
                    *canvas_rect,
                    target_dims.0 as int,
                    target_dims.1 as int,
                ),
                radius as int,
                spacing as int,
            ),
            state_wf(r, radius as int, spacing as int),
    {
        let dabbing = input.dabbing;
        let stroking = input.stroking;
        if !dabbing && !stroking {
            return BrushState::NonTouching;
        }
        let pos_on_target = Manager::pos_on_target(
            input.pointer_x,
            input.pointer_y,
            canvas_rect,
            target_dims,
        );
        if dabbing {
            return BrushState::Dabbing { pos: pos_on_target };
        }
        match state {
            BrushState::Stroking { pos: last_pos, stroked_distance, .. } => {
                proof {
                    assert((radius as int) * (spacing as int) < 0x1_0000_0000_0000_0000)
                        by (nonlinear_arith)
                        requires
                            radius < 0x1_0000_0000,
                            spacing < 0x1_0000_0000,
                    ;
                }
                let step: u64 = dist(last_pos, pos_on_target);
                let total: u64 = stroked_distance + step;
                if 100u128 * (total as u128) >= (radius as u128) * (spacing as u128) {
                    BrushState::Stroking {
                        pos: pos_on_target,
                        stroked_distance: 0,
                        splotch_ready: true,
                    }
                } else {
                    BrushState::Stroking {
                        pos: pos_on_target,
                        stroked_distance: total,
                        splotch_ready: false,
                    }
                }
            },
            _ => BrushState::Stroking {
                pos: pos_on_target,
                stroked_distance: 0,
                splotch_ready: true,
            },
        }
    }

    /// Process one input sample: advance the stroke gate, and if the
    /// resulting state places a stamp, paint it onto the canvas at the
    /// mapped pointer position and return the modified region.
    pub fn apply_input(
        &mut self,
        input: &InputSample,
        canvas_rect: &CanvasRect,
        target: &mut Canvas,
    ) -> (r: Option<Patch>)
        requires
            old(self).wf(),
            input.wf(),
            canvas_rect.wf(),
            old(target).wf(),
        ensures
            final(self).wf(),
            final(self).brush == old(self).brush,
            final(self).stroke_splotch_spacing == old(self).stroke_splotch_spacing,
            final(self).brush_state == spec_update_brush_state(
                old(self).brush_state,
                input.dabbing,
                input.stroking,
                spec_pos_on_target(
                    input.pointer_x as int,
                    input.pointer_y as int,
                    *canvas_rect,
                    old(target).width as int,
                    old(target).height as int,
                ),
                old(self).brush.radius as int,
                old(self).stroke_splotch_spacing as int,
            ),
            final(target).wf(),
            final(target).width == old(target).width,
            final(target).height == old(target).height,
            match spec_paints(final(self).brush_state) {
                Some(pos) => {
                    &&& forall|cx: int, cy: int|
                        #![trigger final(target).pixel_at(cx, cy)]
                        old(target).contains(cx, cy) ==> final(target).pixel_at(cx, cy)
                            == stamped_pixel(
                            old(self).brush,
                            (pos.x, pos.y),
                            *old(target),
                            cx,
                            cy,
                        )
                    &&& blob_patch_ok(
                        old(self).brush,
                        (pos.x, pos.y),
                        old(target).width as int,
                        old(target).height as int,
                        r,
                    )
                },
                None => final(target).pixels@ == old(target).pixels@ && r is None,
            },
    {
        self.brush_state = Manager::update_brush_state(
            self.brush_state,
            input,
            self.brush.radius,
            self.stroke_splotch_spacing,
            canvas_rect,
            (target.width, target.height),
        );
        match self.brush_state {
            BrushState::Stroking { pos, splotch_ready: true, .. } => self.brush.apply(
                target,
                (pos.x, pos.y),
            ),
            BrushState::Dabbing { pos } => self.brush.apply(target, (pos.x, pos.y)),
            BrushState::Stroking { splotch_ready: false, .. } => None,
            BrushState::NonTouching => None,
        }
    }
}

/// How many stamps a whole drag places: the number of samples at which the
/// gate reports ready.
pub open spec fn spec_drag_placements(
    state: BrushState,
    ps: Seq<CanvasPos>,
    radius: int,
    spacing: int,
) -> int
    decreases ps.len(),
{
    if ps.len() == 0 {
        0
    } else {
        let next = spec_update_brush_state(state, false, true, ps[0], radius, spacing);
        (if spec_paints(next) is Some {
            1int
        } else {
            0int
        }) + spec_drag_placements(next, ps.drop_first(), radius, spacing)
    }
}

/// The length of the polyline from `p0` through the samples `ps`, in whole
/// pixels.
pub open spec fn spec_path_length(p0: CanvasPos, ps: Seq<CanvasPos>) -> int
    decreases ps.len(),
{
    if ps.len() == 0 {
        0
    } else {
        spec_dist(p0, ps[0]) + spec_path_length(ps[0], ps.drop_first())
    }
}

/// Placements along a drag are gated by traveled distance: each placement
/// costs at least `radius * spacing / 100` pixels of drag, so over a drag of
/// total length `L` starting mid-stroke with `t` pixels already accumulated,
/// at most `(100 * (t + L)) / (radius * spacing)` stamps are placed:
/// `radius * spacing * placements <= 100 * (t + L)`.
pub proof fn lemma_drag_placement_budget(
    pos: CanvasPos,
    t: u64,
    ready: bool,
    ps: Seq<CanvasPos>,
    radius: int,
    spacing: int,
)
    requires
        0 <= radius < 0x1_0000_0000,
        0 <= spacing < 0x1_0000_0000,
    ensures
        radius * spacing * spec_drag_placements(
            BrushState::Stroking { pos, stroked_distance: t, splotch_ready: ready },
            ps,
            radius,
            spacing,
        ) <= 100 * (t + spec_path_length(pos, ps)),
    decreases ps.len(),
{
    let state = BrushState::Stroking { pos, stroked_distance: t, splotch_ready: ready };
    if ps.len() == 0 {
        assert(radius * spacing * 0 == 0) by (nonlinear_arith);
    } else {
        let p1 = ps[0];
        let step = spec_dist(pos, p1);
        assert((p1.x - pos.x) * (p1.x - pos.x) + (p1.y - pos.y) * (p1.y - pos.y) >= 0)
            by (nonlinear_arith);
        lemma_sqrt_floor_exists((p1.x - pos.x) * (p1.x - pos.x) + (p1.y - pos.y) * (p1.y - pos.y))
            ;
        assert(step >= 0);
        let total = t + step;
        let next = spec_update_brush_state(state, false, true, p1, radius, spacing);
        let k = spec_drag_placements(next, ps.drop_first(), radius, spacing);
        if 100 * total >= radius * spacing {
            lemma_drag_placement_budget(p1, 0, true, ps.drop_first(), radius, spacing);
            assert(spec_paints(next) is Some);
            assert(spec_path_length(p1, ps.drop_first()) >= 0) by {
                lemma_path_length_nonneg(p1, ps.drop_first());
            }
            assert(radius * spacing * (1 + k) <= 100 * total + radius * spacing * k)
                by (nonlinear_arith)
                requires
                    100 * total >= radius * spacing,
            ;
        } else {
            assert(total < 0x1_0000_0000_0000_0000) by {
                assert(100 * total < radius * spacing);
                assert(radius * spacing < 100 * 0x1_0000_0000_0000_0000) by (nonlinear_arith)
                    requires
                        0 <= radius < 0x1_0000_0000,
                        0 <= spacing < 0x1_0000_0000,
                ;
            }
            lemma_drag_placement_budget(p1, total as u64, false, ps.drop_first(), radius, spacing);
        }
    }
}

/// The counterpart of the budget bound: placements along a drag are also
/// forced by traveled distance. When every sample moves at most `m`
/// pixels, a placement consumes less than `radius * spacing / 100 + m` pixels
/// of drag, and less than the threshold is left over at the end, so over a
/// drag of total length `L` starting with `t` pixels accumulated:
/// `100 * (t + L) < placements * (radius * spacing + 100 * m) + radius * spacing`.
pub proof fn lemma_drag_placement_demand(
    pos: CanvasPos,
    t: u64,
    ready: bool,
    ps: Seq<CanvasPos>,
    radius: int,
    spacing: int,
    m: int,
)
    requires
        0 <= radius < 0x1_0000_0000,
        0 <= spacing < 0x1_0000_0000,
        radius * spacing > 0,
        t == 0 || 100 * t < radius * spacing,
        steps_bounded(pos, ps, m),
    ensures
        100 * (t + spec_path_length(pos, ps)) < spec_drag_placements(
            BrushState::Stroking { pos, stroked_distance: t, splotch_ready: ready },
            ps,
            radius,
            spacing,
        ) * (radius * spacing + 100 * m) + radius * spacing,
    decreases ps.len(),
{
    let state = BrushState::Stroking { pos, stroked_distance: t, splotch_ready: ready };
    if ps.len() == 0 {
        assert(0int * (radius * spacing + 100 * m) == 0) by (nonlinear_arith);
    } else {
        let p1 = ps[0];
        let step = spec_dist(pos, p1);
        assert((p1.x - pos.x) * (p1.x - pos.x) + (p1.y - pos.y) * (p1.y - pos.y) >= 0)
            by (nonlinear_arith);
        lemma_sqrt_floor_exists(
            (p1.x - pos.x) * (p1.x - pos.x) + (p1.y - pos.y) * (p1.y - pos.y),
        );
        let total = t + step;
        let next = spec_update_brush_state(state, false, true, p1, radius, spacing);
        if 100 * total >= radius * spacing {
            assert(spec_paints(next) is Some);
            let k = spec_drag_placements(next, ps.drop_first(), radius, spacing);
            lemma_drag_placement_demand(p1, 0, true, ps.drop_first(), radius, spacing, m);
            lemma_drag_placements_nonneg(next, ps.drop_first(), radius, spacing);
            assert((1 + k) * (radius * spacing + 100 * m) == (radius * spacing + 100 * m) + k * (
            radius * spacing + 100 * m)) by (nonlinear_arith);
        } else {
            assert(total < 0x1_0000_0000_0000_0000) by {
                assert(radius * spacing < 100 * 0x1_0000_0000_0000_0000) by (nonlinear_arith)
                    requires
                        0 <= radius < 0x1_0000_0000,
                        0 <= spacing < 0x1_0000_0000,
                ;
            }
            lemma_drag_placement_demand(
                p1,
                total as u64,
                false,
                ps.drop_first(),
                radius,
                spacing,
                m,
            );
        }
    }
}

/// Every sample of the drag moves at most `m` pixels from the previous one.
pub open spec fn steps_bounded(p0: CanvasPos, ps: Seq<CanvasPos>, m: int) -> bool
    decreases ps.len(),
{
    if ps.len() == 0 {
        true
    } else {
        spec_dist(p0, ps[0]) <= m && steps_bounded(ps[0], ps.drop_first(), m)
    }
}

/// A placement count is never negative.
pub proof fn lemma_drag_placements_nonneg(
    state: BrushState,
    ps: Seq<CanvasPos>,
    radius: int,
    spacing: int,
)
    ensures
        spec_drag_placements(state, ps, radius, spacing) >= 0,
    decreases ps.len(),
{
    if ps.len() > 0 {
        let next = spec_update_brush_state(state, false, true, ps[0], radius, spacing);
        lemma_drag_placements_nonneg(next, ps.drop_first(), radius, spacing);
    }
}

/// A path length is never negative.
pub proof fn lemma_path_length_nonneg(p0: CanvasPos, ps: Seq<CanvasPos>)
    ensures
        spec_path_length(p0, ps) >= 0,
    decreases ps.len(),
{
    if ps.len() > 0 {
        let p1 = ps[0];
        assert((p1.x - p0.x) * (p1.x - p0.x) + (p1.y - p0.y) * (p1.y - p0.y) >= 0)
            by (nonlinear_arith);
        lemma_sqrt_floor_exists((p1.x - p0.x) * (p1.x - p0.x) + (p1.y - p0.y) * (p1.y - p0.y));
        lemma_path_length_nonneg(p1, ps.drop_first());
    }
}

} // verus!

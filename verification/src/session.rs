//! One painting session: the view transform and the brush manager, driven by
//! one consolidated input snapshot per frame.
//!
//! Per frame, in order: a viewport size change resets the view; a zoom event
//! rescales the canvas rectangle about the pointer; then the pointer sample
//! runs through the stroke gate and, when a stamp is due, is painted onto the
//! canvas, yielding at most one patch for the host to re-upload.

use vstd::prelude::*;
use crate::canvas::Canvas;
use crate::patch::Patch;
use crate::stamp::{blob_patch_ok, stamped_pixel};
use crate::stroke::{
    spec_paints, spec_pos_on_target, spec_update_brush_state, InputSample, Manager,
};
use crate::view::{
    spec_initial_rect, spec_next_level, spec_unscaled_w, spec_zoom_factor, spec_zoom_rect,
    ViewState, ZOOM_SCALE,
};

verus! {

/// A discrete zoom event: direction, and the pointer position it is anchored
/// at, in viewport subpixels.
#[derive(Clone, Copy, Debug)]
pub struct ZoomEvent {
    pub zoom_in: bool,
    pub pointer_x: i64,
    pub pointer_y: i64,
}

impl ZoomEvent {
    /// The anchor stays inside the supported coordinate range.
    pub open spec fn wf(self) -> bool {
        &&& -0x1_0000_0000_0000 <= self.pointer_x <= 0x1_0000_0000_0000
        &&& -0x1_0000_0000_0000 <= self.pointer_y <= 0x1_0000_0000_0000
    }
}

/// One frame's consolidated input: at most one zoom event, and the pointer
/// sample for painting.
#[derive(Clone, Copy, Debug)]
pub struct FrameInput {
    pub zoom: Option<ZoomEvent>,
    pub sample: InputSample,
}

impl FrameInput {
    /// All positions stay inside the supported coordinate range.
    pub open spec fn wf(self) -> bool {
        &&& match self.zoom {
            Some(z) => z.wf(),
            None => true,
        }
        &&& self.sample.wf()
    }
}

/// The view after a possible viewport resize: a changed size resets the view
/// to the fit-to-viewport rectangle and the baseline zoom index.
pub open spec fn spec_view_after_resize(v: ViewState, vw: u32, vh: u32) -> ViewState {
    if v.viewport_w == vw && v.viewport_h == vh {
        v
    } else {
        ViewState {
            canvas_rect: spec_initial_rect(vw as int, vh as int, v.canvas_w as int, v.canvas_h as int),
            viewport_w: vw,
            viewport_h: vh,
            canvas_w: v.canvas_w,
            canvas_h: v.canvas_h,
            zoom_level: (33int / 2 + 1) as u8,
        }
    }
}

/// The view after a possible zoom event, per the anchored zoom step.
pub open spec fn spec_view_after_zoom(v: ViewState, zoom: Option<ZoomEvent>) -> ViewState {
    match zoom {
        None => v,
        Some(z) => ViewState {
            canvas_rect: spec_zoom_rect(
                v.canvas_rect,
                spec_zoom_factor(spec_next_level(v.zoom_level as int, z.zoom_in))
                    * spec_unscaled_w(
                    v.viewport_w as int,
                    v.viewport_h as int,
                    v.canvas_w as int,
                    v.canvas_h as int,
                ),
                ZOOM_SCALE * v.canvas_rect.w,
                z.pointer_x as int,
                z.pointer_y as int,
            ),
            viewport_w: v.viewport_w,
            viewport_h: v.viewport_h,
            canvas_w: v.canvas_w,
            canvas_h: v.canvas_h,
            zoom_level: spec_next_level(v.zoom_level as int, z.zoom_in) as u8,
        },
    }
}

/// A painting session over one canvas: its view transform and its brush.
pub struct Session {
    pub view: ViewState,
    pub brush_manager: Manager,
}

impl Session {
    /// The view and the brush manager are each well formed.
    pub open spec fn wf(self) -> bool {
        &&& self.view.wf()
        &&& self.brush_manager.wf()
    }

    /// A fresh session viewing a `canvas_w x canvas_h` canvas, with the
    /// default brush.
    pub fn new(viewport_w: u32, viewport_h: u32, canvas_w: u32, canvas_h: u32) -> (s: Session)
        requires
            0 < canvas_w <= 0x8000,
            0 < canvas_h <= 0x8000,
            viewport_w <= 0x10000,
            viewport_h <= 0x10000,
        ensures
            s.wf(),
            s.view.canvas_w == canvas_w,
            s.view.canvas_h == canvas_h,
            s.view.viewport_w == viewport_w,
            s.view.viewport_h == viewport_h,
            s.brush_manager.brush.radius == 100,
            s.brush_manager.brush.hardness == 50,
            s.brush_manager.stroke_splotch_spacing == 20,
            s.brush_manager.brush_state is NonTouching,
    {
        Session {
            view: ViewState::new(viewport_w, viewport_h, canvas_w, canvas_h),
            brush_manager: Manager::new(),
        }
    }

    /// Process one frame: adopt a viewport size change, apply a zoom event,
    /// then run the pointer sample through the stroke gate against the
    /// resulting canvas rectangle, painting onto `target` when a stamp is
    /// due. Returns the modified canvas region, if any.
    pub fn handle_frame(
        &mut self,
        viewport_w: u32,
        viewport_h: u32,
        input: &FrameInput,
        target: &mut Canvas,
    ) -> (r: Option<Patch>)
        requires
            old(self).wf(),
            input.wf(),
            old(target).wf(),
            viewport_w <= 0x10000,
            viewport_h <= 0x10000,
            old(self).view.canvas_w == old(target).width,
            old(self).view.canvas_h == old(target).height,
        ensures
            final(self).wf(),
            final(target).wf(),
            final(target).width == old(target).width,
            final(target).height == old(target).height,
            final(self).view == spec_view_after_zoom(
                spec_view_after_resize(old(self).view, viewport_w, viewport_h),
                input.zoom,
            ),
            final(self).brush_manager.brush == old(self).brush_manager.brush,
            final(self).brush_manager.stroke_splotch_spacing == old(
                self,
            ).brush_manager.stroke_splotch_spacing,
            final(self).brush_manager.brush_state == spec_update_brush_state(
                old(self).brush_manager.brush_state,
                input.sample.dabbing,
                input.sample.stroking,
                spec_pos_on_target(
                    input.sample.pointer_x as int,
                    input.sample.pointer_y as int,
                    spec_view_after_zoom(
                        spec_view_after_resize(old(self).view, viewport_w, viewport_h),
                        input.zoom,
                    ).canvas_rect,
                    old(target).width as int,
                    old(target).height as int,
                ),
                old(self).brush_manager.brush.radius as int,
                old(self).brush_manager.stroke_splotch_spacing as int,
            ),
            match spec_paints(final(self).brush_manager.brush_state) {
                Some(pos) => {
                    &&& forall|cx: int, cy: int|
                        #![trigger final(target).pixel_at(cx, cy)]
                        old(target).contains(cx, cy) ==> final(target).pixel_at(cx, cy)
                            == stamped_pixel(
                            old(self).brush_manager.brush,
                            (pos.x, pos.y),
                            *old(target),
                            cx,
                            cy,
                        )
                    &&& blob_patch_ok(
                        old(self).brush_manager.brush,
                        (pos.x, pos.y),
                        old(target).width as int,
                        old(target).height as int,
                        r,
                    )
                },
                None => final(target).pixels@ == old(target).pixels@ && r is None,
            },
    {
        if self.view.viewport_w != viewport_w || self.view.viewport_h != viewport_h {
            self.view.handle_resize(viewport_w, viewport_h);
        }
        match input.zoom {
            Some(z) => {
                self.view.apply_zoom(z.zoom_in, z.pointer_x, z.pointer_y);
            },
            None => {},
        }
        self.brush_manager.apply_input(&input.sample, &self.view.canvas_rect, target)
    }
}

} // verus!

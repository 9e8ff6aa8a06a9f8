//! Clipping of a stamp's placement rectangle against canvas bounds.
//!
//! A placement rectangle is given by a signed top-left corner and an unsigned
//! size; the canvas occupies `[0, width) x [0, height)`. When the two overlap,
//! the clipper returns the intersection as a [`Patch`]; when they do not, no
//! patch is produced at all (never a zero-sized one).

use vstd::prelude::*;

verus! {

/// A rectangular sub-region of the canvas that was modified by one stamp
/// placement. Always lies fully inside the canvas it was clipped against.
#[derive(Clone, Copy, Debug, PartialEq, Eq, Structural)]
pub struct Patch {
    pub x: u32,
    pub y: u32,
    pub width: u32,
    pub height: u32,
}

impl Patch {
    /// The patch is non-empty and contained in a `target_width x target_height` canvas.
    pub open spec fn in_canvas(self, target_width: u32, target_height: u32) -> bool {
        &&& self.width > 0
        &&& self.height > 0
        &&& self.x + self.width <= target_width
        &&& self.y + self.height <= target_height
    }
}

/// The placement rectangle `[x, x+width) x [y, y+height)` meets the canvas
/// `[0, target_width) x [0, target_height)` in at least one pixel.
pub open spec fn placement_overlaps(
    x: int,
    y: int,
    width: int,
    height: int,
    target_width: int,
    target_height: int,
) -> bool {
    &&& width > 0
    &&& height > 0
    &&& target_width > 0
    &&& target_height > 0
    &&& x < target_width
    &&& y < target_height
    &&& x + width > 0
    &&& y + height > 0
}

/// Largest of `v` and 0.
pub open spec fn clamp_low(v: int) -> int {
    if v > 0 {
        v
    } else {
        0
    }
}

/// Smallest of `v` and `bound`.
pub open spec fn clamp_high(v: int, bound: int) -> int {
    if v < bound {
        v
    } else {
        bound
    }
}

/// Clip the placement rectangle of a brush blob against the canvas bounds.
///
/// Returns the intersection of `[x, x+width) x [y, y+height)` with
/// `[0, target_width) x [0, target_height)` as a patch, or `None` when that
/// intersection is empty — a placement entirely off-canvas yields no patch,
/// even when clamping its corner would land it at the canvas origin.
pub fn get_patch_from_blob_bounds(
    x: i64,
    y: i64,
    width: u32,
    height: u32,
    target_width: u32,
    target_height: u32,
) -> (r: Option<Patch>)
    ensures
        match r {
            Some(p) => {
                &&& placement_overlaps(
                    x as int,
                    y as int,
                    width as int,
                    height as int,
                    target_width as int,
                    target_height as int,
                )
                &&& p.x == clamp_low(x as int)
                &&& p.y == clamp_low(y as int)
                &&& p.x + p.width == clamp_high(x + width, target_width as int)
                &&& p.y + p.height == clamp_high(y + height, target_height as int)
                &&& p.in_canvas(target_width, target_height)
            },
            None => !placement_overlaps(
                x as int,
                y as int,
                width as int,
                height as int,
                target_width as int,
                target_height as int,
            ),
        },
{
    if width == 0 || height == 0 || target_width == 0 || target_height == 0 {
        return None;
    }
    if x >= target_width as i64 || y >= target_height as i64 {
        return None;
    }
    if x <= -(width as i64) || y <= -(height as i64) {
        return None;
    }
    // The corner is now below the canvas extent, so the sums fit comfortably in i64.
    let x0: i64 = if x > 0 {
        x
    } else {
        0
    };
    let y0: i64 = if y > 0 {
        y
    } else {
        0
    };
    let x1: i64 = if x + (width as i64) < target_width as i64 {
        x + (width as i64)
    } else {
        target_width as i64
    };
    let y1: i64 = if y + (height as i64) < target_height as i64 {
        y + (height as i64)
    } else {
        target_height as i64
    };
    Some(
        Patch {
            x: x0 as u32,
            y: y0 as u32,
            width: (x1 - x0) as u32,
            height: (y1 - y0) as u32,
        },
    )
}

} // verus!

//! Brush stamps: a square, anti-aliased, alpha-coded image of a soft circle,
//! built from the brush radius, hardness and color, and composited over the
//! canvas at a signed position.
//!
//! A stamp of radius `r` is a `2r x 2r` grid. Pixel `(i, j)` sits at
//! `((2i - 2r) / 2r, (2j - 2r) / 2r)` in coordinates normalized to `[-1, 1]`,
//! and its coverage is the falloff curve evaluated at its radial distance,
//! with the exact integer square root standing in for the Euclidean norm.

use vstd::prelude::*;
use crate::canvas::{
    blend_pixel, blend_pixel_exec, lemma_grid_index_bounds, Canvas, Pixel, Rgb,
};
use crate::falloff::{falloff_alpha, falloff_alpha_exec};
use crate::math::{isqrt, sqrt_floor};
use crate::patch::{get_patch_from_blob_bounds, placement_overlaps, clamp_low, clamp_high, Patch};

verus! {

/// The alpha entry of a row-major `side x side` coverage grid at `(i, j)`.
pub open spec fn stamp_entry(a: Seq<u8>, side: int, i: int, j: int) -> int {
    a[j * side + i] as int
}

/// The coverage a brush of the given radius and hardness paints at stamp
/// pixel `(i, j)`: the falloff curve at the pixel's radial distance, a
/// rational with denominator `2 * radius`.
pub open spec fn stamp_alpha(radius: int, hardness: int, i: int, j: int) -> int {
    let side = 2 * radius;
    let dx = 2 * i - side;
    let dy = 2 * j - side;
    falloff_alpha(sqrt_floor(dx * dx + dy * dy), side, hardness)
}

/// The rasterized image of one brush application: a square per-pixel coverage
/// grid plus the solid brush color.
pub struct BrushStamp {
    pub side: u32,
    pub color: Rgb,
    pub alpha: Vec<u8>,
}

impl BrushStamp {
    /// The coverage grid matches the side length, which stays within the
    /// supported stamp size.
    pub open spec fn wf(self) -> bool {
        &&& self.side <= 0xFFFE
        &&& self.alpha.len() == self.side * self.side
    }

    /// The coverage at stamp pixel `(i, j)`.
    pub open spec fn alpha_at(self, i: int, j: int) -> int {
        stamp_entry(self.alpha@, self.side as int, i, j)
    }
}

/// `(cx, cy)` lies under a `side x side` stamp whose top-left corner sits at
/// `(x, y)`.
pub open spec fn covers(x: int, y: int, side: int, cx: int, cy: int) -> bool {
    &&& x <= cx < x + side
    &&& y <= cy < y + side
}

/// Row-major order: `(i2, j2)` comes strictly before `(i, j)`.
pub open spec fn row_major_before(i2: int, j2: int, i: int, j: int) -> bool {
    j2 < j || (j2 == j && i2 < i)
}

/// A cell strictly before a row-major cursor has a smaller linear index.
proof fn lemma_row_major_lt(i2: int, j2: int, i: int, j: int, side: int)
    requires
        0 <= i2 < side,
        0 <= j2,
        0 <= i,
        row_major_before(i2, j2, i, j),
    ensures
        j2 * side + i2 < j * side + i,
{
    assert(j2 * side + i2 < j * side + i) by (nonlinear_arith)
        requires
            0 <= i2 < side,
            0 <= j2,
            0 <= i,
            j2 < j || (j2 == j && i2 < i),
    ;
}

/// A brush: radius in pixels, hardness as a percentage of the radius, and a
/// solid color. Parameters are clamped at construction, so a brush is always
/// well formed.
pub struct Brush {
    pub radius: u32,
    pub hardness: u32,
    pub color: Rgb,
}

impl Brush {
    /// Parameters stay inside the supported range.
    pub open spec fn wf(self) -> bool {
        &&& self.radius <= 0x7FFF
        &&& self.hardness <= 100
    }

    /// Make a brush, clamping the hardness to `0..=100` and the radius to the
    /// largest supported stamp rather than failing.
    pub fn new(radius: u32, hardness: u32, color: Rgb) -> (b: Brush)
        ensures
            b.wf(),
            b.radius == if radius <= 0x7FFF { radius as int } else { 0x7FFF },
            b.hardness == if hardness <= 100 { hardness as int } else { 100 },
            b.color == color,
    {
        Brush {
            radius: if radius <= 0x7FFF {
                radius
            } else {
                0x7FFF
            },
            hardness: if hardness <= 100 {
                hardness
            } else {
                100
            },
            color,
        }
    }

    /// Rasterize the brush into a fresh stamp: a `2 * radius` square whose
    /// coverage at each pixel is the falloff curve at that pixel's distance
    /// from the center. A zero radius yields an empty stamp.
    pub fn build_brush_blob(radius: u32, hardness: u32, color: Rgb) -> (s: BrushStamp)
        requires
            radius <= 0x7FFF,
            hardness <= 100,
        ensures
            s.wf(),
            s.side == 2 * radius,
            s.color == color,
            forall|i: int, j: int|
                0 <= i < s.side && 0 <= j < s.side ==> #[trigger] s.alpha_at(i, j) == stamp_alpha(
                    radius as int,
                    hardness as int,
                    i,
                    j,
                ),
    {
        let side: u32 = 2 * radius;
        let mut alpha: Vec<u8> = Vec::new();
        if radius == 0 {
            return BrushStamp { side, color, alpha };
        }
        let mut j: u32 = 0;
        while j < side
            invariant
                1 <= radius <= 0x7FFF,
                hardness <= 100,
                side == 2 * radius,
                j <= side,
                alpha@.len() == j * side,
                forall|i2: int, j2: int|
                    0 <= i2 < side && 0 <= j2 < j ==> #[trigger] stamp_entry(
                        alpha@,
                        side as int,
                        i2,
                        j2,
                    ) == stamp_alpha(radius as int, hardness as int, i2, j2),
            decreases side - j,
        {
            let mut i: u32 = 0;
            while i < side
                invariant
                    1 <= radius <= 0x7FFF,
                    hardness <= 100,
                    side == 2 * radius,
                    j < side,
                    i <= side,
                    alpha@.len() == j * side + i,
                    forall|i2: int, j2: int|
                        0 <= i2 < side && (0 <= j2 < j || (j2 == j && 0 <= i2 < i))
                            ==> #[trigger] stamp_entry(alpha@, side as int, i2, j2) == stamp_alpha(
                            radius as int,
                            hardness as int,
                            i2,
                            j2,
                        ),
                decreases side - i,
            {
                let dx: i64 = 2 * (i as i64) - (side as i64);
                let dy: i64 = 2 * (j as i64) - (side as i64);
                proof {
                    assert(dx * dx <= 0x1_0000_0000 && dy * dy <= 0x1_0000_0000 && dx * dx >= 0
                        && dy * dy >= 0) by (nonlinear_arith)
                        requires
                            -0x10000 <= dx <= 0x10000,
                            -0x10000 <= dy <= 0x10000,
                    ;
                }
                let dsq: u64 = (dx * dx + dy * dy) as u64;
                let rnum: u64 = isqrt(dsq);
                let a: u8 = falloff_alpha_exec(rnum, side as u64, hardness);
                proof {
                    let ghost prev = alpha@;
                    assert(a == stamp_alpha(radius as int, hardness as int, i as int, j as int));
                    assert forall|i2: int, j2: int|
                        0 <= i2 < side && (0 <= j2 < j || (j2 == j && 0 <= i2 < i + 1))
                            implies #[trigger] stamp_entry(prev.push(a), side as int, i2, j2)
                        == stamp_alpha(radius as int, hardness as int, i2, j2) by {
                        if j2 == j && i2 == i {
                            assert(prev.push(a)[j * side + i] == a);
                        } else {
                            lemma_row_major_lt(i2, j2, i as int, j as int, side as int);
                            assert(0 <= j2 * side + i2) by (nonlinear_arith)
                                requires
                                    0 <= i2,
                                    0 <= j2,
                                    side > 0,
                            ;
                            assert(prev.push(a)[j2 * side + i2] == prev[j2 * side + i2]);
                            assert(stamp_entry(prev, side as int, i2, j2) == stamp_alpha(
                                radius as int,
                                hardness as int,
                                i2,
                                j2,
                            ));
                        }
                    }
                }
                alpha.push(a);
                i = i + 1;
            }
            proof {
                assert((j + 1) * (side as int) == j * side + side) by (nonlinear_arith);
            }
            j = j + 1;
        }
        proof {
            assert((side as int) * (side as int) == (2 * radius) * (2 * radius));
        }
        BrushStamp { side, color, alpha }
    }
}

/// What one application of brush `b` centered at `pos` leaves at canvas
/// position `(cx, cy)`: the brush color blended in at the stamp's coverage
/// under the stamp, the previous pixel elsewhere.
pub open spec fn stamped_pixel(b: Brush, pos: (i64, i64), before: Canvas, cx: int, cy: int) -> Pixel {
    if covers(pos.0 - b.radius, pos.1 - b.radius, 2 * b.radius, cx, cy) {
        blend_pixel(
            b.color,
            stamp_alpha(
                b.radius as int,
                b.hardness as int,
                cx - (pos.0 - b.radius),
                cy - (pos.1 - b.radius),
            ),
            before.pixel_at(cx, cy),
        )
    } else {
        before.pixel_at(cx, cy)
    }
}

/// The patch reported for one application of brush `b` centered at `pos` on
/// a `w x h` canvas: exactly the intersection of the stamp square with the
/// canvas, or `None` when they do not overlap.
pub open spec fn blob_patch_ok(b: Brush, pos: (i64, i64), w: int, h: int, r: Option<Patch>) -> bool {
    match r {
        Some(p) => {
            &&& placement_overlaps(
                pos.0 - b.radius,
                pos.1 - b.radius,
                2 * b.radius,
                2 * b.radius,
                w,
                h,
            )
            &&& p.x == clamp_low(pos.0 - b.radius)
            &&& p.y == clamp_low(pos.1 - b.radius)
            &&& p.x + p.width == clamp_high(pos.0 + b.radius, w)
            &&& p.y + p.height == clamp_high(pos.1 + b.radius, h)
            &&& p.width <= 2 * b.radius
            &&& p.height <= 2 * b.radius
            &&& p.x + p.width <= w
            &&& p.y + p.height <= h
            &&& p.width > 0
            &&& p.height > 0
        },
        None => !placement_overlaps(
            pos.0 - b.radius,
            pos.1 - b.radius,
            2 * b.radius,
            2 * b.radius,
            w,
            h,
        ),
    }
}

impl Brush {
    /// Apply one stamp of this brush to the canvas, centered at `pos`:
    /// rasterize the stamp, composite it over the canvas, and report the
    /// clipped canvas region it landed on, or `None` when the stamp lies
    /// entirely off-canvas.
    pub fn apply(&self, target: &mut Canvas, pos: (i64, i64)) -> (r: Option<Patch>)
        requires
            self.wf(),
            old(target).wf(),
            -0x4000_0000 <= pos.0 <= 0x4000_0000,
            -0x4000_0000 <= pos.1 <= 0x4000_0000,
        ensures
            final(target).wf(),
            final(target).width == old(target).width,
            final(target).height == old(target).height,
            forall|cx: int, cy: int|
                #![trigger final(target).pixel_at(cx, cy)]
                old(target).contains(cx, cy) ==> final(target).pixel_at(cx, cy) == stamped_pixel(
                    *self,
                    pos,
                    *old(target),
                    cx,
                    cy,
                ),
            blob_patch_ok(*self, pos, old(target).width as int, old(target).height as int, r),
    {
        let blob = Brush::build_brush_blob(self.radius, self.hardness, self.color);
        let x_blob: i64 = pos.0 - (self.radius as i64);
        let y_blob: i64 = pos.1 - (self.radius as i64);
        composite_over(target, &blob, x_blob, y_blob);
        proof {
            assert forall|cx: int, cy: int|
                #![trigger target.pixel_at(cx, cy)]
                old(target).contains(cx, cy) implies target.pixel_at(cx, cy) == (if covers(
                pos.0 - self.radius,
                pos.1 - self.radius,
                2 * self.radius,
                cx,
                cy,
            ) {
                blend_pixel(
                    self.color,
                    stamp_alpha(
                        self.radius as int,
                        self.hardness as int,
                        cx - (pos.0 - self.radius),
                        cy - (pos.1 - self.radius),
                    ),
                    old(target).pixel_at(cx, cy),
                )
            } else {
                old(target).pixel_at(cx, cy)
            }) by {
                if covers(pos.0 - self.radius, pos.1 - self.radius, 2 * self.radius, cx, cy) {
                    assert(blob.alpha_at(cx - x_blob, cy - y_blob) == stamp_alpha(
                        self.radius as int,
                        self.hardness as int,
                        cx - x_blob,
                        cy - y_blob,
                    ));
                }
            }
        }
        get_patch_from_blob_bounds(
            x_blob,
            y_blob,
            blob.side,
            blob.side,
            target.width,
            target.height,
        )
    }
}

/// Composite a stamp over the canvas, its top-left corner at the signed
/// canvas position `(x, y)`. Every canvas pixel under the stamp is blended
/// with the stamp's color at that pixel's coverage; every other pixel keeps
/// its value. Off-canvas parts of the stamp are ignored.
pub fn composite_over(target: &mut Canvas, stamp: &BrushStamp, x: i64, y: i64)
    requires
        old(target).wf(),
        stamp.wf(),
        -0x4000_0000_0000_0000 <= x <= 0x4000_0000_0000_0000,
        -0x4000_0000_0000_0000 <= y <= 0x4000_0000_0000_0000,
    ensures
        final(target).wf(),
        final(target).width == old(target).width,
        final(target).height == old(target).height,
        forall|cx: int, cy: int|
            #![trigger final(target).pixel_at(cx, cy)]
            old(target).contains(cx, cy) ==> final(target).pixel_at(cx, cy) == (if covers(
                x as int,
                y as int,
                stamp.side as int,
                cx,
                cy,
            ) {
                blend_pixel(
                    stamp.color,
                    stamp.alpha_at(cx - x, cy - y),
                    old(target).pixel_at(cx, cy),
                )
            } else {
                old(target).pixel_at(cx, cy)
            }),
{
    let ghost orig: Canvas = *target;
    let side: u32 = stamp.side;
    let si0: i64 = if x >= 0 {
        0
    } else {
        -x
    };
    let si1: i64 = if (side as i64) < (target.width as i64) - x {
        side as i64
    } else {
        (target.width as i64) - x
    };
    let sj0: i64 = if y >= 0 {
        0
    } else {
        -y
    };
    let sj1: i64 = if (side as i64) < (target.height as i64) - y {
        side as i64
    } else {
        (target.height as i64) - y
    };
    if si0 >= si1 || sj0 >= sj1 {
        return ;
    }
    let mut sj: i64 = sj0;
    while sj < sj1
        invariant
            target.wf(),
            target.width == orig.width,
            target.height == orig.height,
            orig.wf(),
            stamp.wf(),
            side == stamp.side,
            -0x4000_0000_0000_0000 <= x <= 0x4000_0000_0000_0000,
            -0x4000_0000_0000_0000 <= y <= 0x4000_0000_0000_0000,
            si0 == if x >= 0 { 0int } else { -x as int },
            si1 <= side as int,
            si1 <= orig.width - x,
            si1 == if (side as int) < orig.width - x { side as int } else { orig.width - x },
            sj0 == if y >= 0 { 0int } else { -y as int },
            sj1 <= side as int,
            sj1 <= orig.height - y,
            sj1 == if (side as int) < orig.height - y { side as int } else { orig.height - y },
            si0 < si1,
            sj0 <= sj <= sj1,
            forall|cx: int, cy: int|
                #![trigger target.pixel_at(cx, cy)]
                orig.contains(cx, cy) ==> target.pixel_at(cx, cy) == (if covers(
                    x as int,
                    y as int,
                    side as int,
                    cx,
                    cy,
                ) && cy - y < sj {
                    blend_pixel(stamp.color, stamp.alpha_at(cx - x, cy - y), orig.pixel_at(cx, cy))
                } else {
                    orig.pixel_at(cx, cy)
                }),
        decreases sj1 - sj,
    {
        let mut si: i64 = si0;
        while si < si1
            invariant
                target.wf(),
                target.width == orig.width,
                target.height == orig.height,
                orig.wf(),
                stamp.wf(),
                side == stamp.side,
                -0x4000_0000_0000_0000 <= x <= 0x4000_0000_0000_0000,
                -0x4000_0000_0000_0000 <= y <= 0x4000_0000_0000_0000,
                si0 == if x >= 0 { 0int } else { -x as int },
                si1 <= side as int,
                si1 <= orig.width - x,
                si1 == if (side as int) < orig.width - x { side as int } else { orig.width - x },
                sj0 == if y >= 0 { 0int } else { -y as int },
                sj1 <= side as int,
                sj1 <= orig.height - y,
                sj1 == if (side as int) < orig.height - y { side as int } else { orig.height - y },
                si0 <= si <= si1,
                sj0 <= sj < sj1,
                forall|cx: int, cy: int|
                    #![trigger target.pixel_at(cx, cy)]
                    orig.contains(cx, cy) ==> target.pixel_at(cx, cy) == (if covers(
                        x as int,
                        y as int,
                        side as int,
                        cx,
                        cy,
                    ) && row_major_before(cx - x, cy - y, si as int, sj as int) {
                        blend_pixel(
                            stamp.color,
                            stamp.alpha_at(cx - x, cy - y),
                            orig.pixel_at(cx, cy),
                        )
                    } else {
                        orig.pixel_at(cx, cy)
                    }),
            decreases si1 - si,
        {
            let cx: u32 = (x + si) as u32;
            let cy: u32 = (y + sj) as u32;
            proof {
                lemma_grid_index_bounds(si as int, sj as int, side as int, side as int);
                assert((side as int) * (side as int) <= 0xFFFE * 0xFFFE) by (nonlinear_arith)
                    requires
                        side <= 0xFFFE,
                ;
            }
            let idx: usize = ((sj as u64) * (side as u64) + (si as u64)) as usize;
            let a: u8 = stamp.alpha[idx];
            let dest: Pixel = target.get_pixel(cx, cy);
            proof {
                assert(covers(x as int, y as int, side as int, cx as int, cy as int));
                assert(!row_major_before(cx - x, cy - y, si as int, sj as int));
                assert(dest == orig.pixel_at(cx as int, cy as int));
                assert(a as int == stamp.alpha_at(si as int, sj as int));
            }
            let ghost mid: Canvas = *target;
            let p: Pixel = blend_pixel_exec(stamp.color, a, dest);
            target.set_pixel(cx, cy, p);
            proof {
                assert forall|cx2: int, cy2: int| orig.contains(cx2, cy2) implies target.pixel_at(
                    cx2,
                    cy2,
                ) == (if covers(x as int, y as int, side as int, cx2, cy2) && row_major_before(
                    cx2 - x,
                    cy2 - y,
                    si + 1,
                    sj as int,
                ) {
                    blend_pixel(stamp.color, stamp.alpha_at(cx2 - x, cy2 - y), orig.pixel_at(
                        cx2,
                        cy2,
                    ))
                } else {
                    orig.pixel_at(cx2, cy2)
                }) by {
                    if cx2 == cx as int && cy2 == cy as int {
                        assert(target.pixel_at(cx2, cy2) == p);
                    } else {
                        assert(target.pixel_at(cx2, cy2) == mid.pixel_at(cx2, cy2));
                        assert(mid.pixel_at(cx2, cy2) == (if covers(
                            x as int,
                            y as int,
                            side as int,
                            cx2,
                            cy2,
                        ) && row_major_before(cx2 - x, cy2 - y, si as int, sj as int) {
                            blend_pixel(stamp.color, stamp.alpha_at(cx2 - x, cy2 - y),
                            orig.pixel_at(cx2, cy2))
                        } else {
                            orig.pixel_at(cx2, cy2)
                        }));
                    }
                }
            }
            si = si + 1;
        }
        sj = sj + 1;
    }
}

} // verus!

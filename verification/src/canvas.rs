//! The paint target: a grid of RGBA pixels with an `over`-operator blend.
//!
//! A stamp pixel with coverage `alpha` is composited over an existing canvas
//! pixel channel-wise: each color channel moves toward the stamp color in
//! proportion to `alpha`, and the alpha channel moves toward fully opaque,
//! with round-to-nearest 8-bit arithmetic.

use vstd::prelude::*;
use vstd::pervasive::VecAdditionalExecFns;

verus! {

/// An opaque RGB color, as carried by a brush.
#[derive(Clone, Copy, Debug, PartialEq, Eq, Structural)]
pub struct Rgb {
    pub r: u8,
    pub g: u8,
    pub b: u8,
}

/// One canvas pixel: RGBA bytes.
#[derive(Clone, Copy, Debug, PartialEq, Eq, Structural)]
pub struct Pixel {
    pub r: u8,
    pub g: u8,
    pub b: u8,
    pub a: u8,
}

/// One channel of the `over` operator: `source` covers `dest` with weight
/// `alpha / 255`, rounded to the nearest byte.
pub open spec fn blend_channel(source: int, dest: int, alpha: int) -> int {
    (source * alpha + dest * (255 - alpha) + 127) / 255
}

/// A stamp pixel of color `color` and coverage `alpha` composited over `dest`:
/// color channels blend toward the stamp color, the alpha channel toward 255.
pub open spec fn blend_pixel(color: Rgb, alpha: int, dest: Pixel) -> Pixel {
    Pixel {
        r: blend_channel(color.r as int, dest.r as int, alpha) as u8,
        g: blend_channel(color.g as int, dest.g as int, alpha) as u8,
        b: blend_channel(color.b as int, dest.b as int, alpha) as u8,
        a: blend_channel(255, dest.a as int, alpha) as u8,
    }
}

/// Blending two bytes lands on a byte.
pub proof fn lemma_blend_channel_bounds(source: int, dest: int, alpha: int)
    requires
        0 <= source <= 255,
        0 <= dest <= 255,
        0 <= alpha <= 255,
    ensures
        0 <= blend_channel(source, dest, alpha) <= 255,
{
    assert(source * alpha + dest * (255 - alpha) <= 255 * 255 && source * alpha + dest * (255
        - alpha) >= 0) by (nonlinear_arith)
        requires
            0 <= source <= 255,
            0 <= dest <= 255,
            0 <= alpha <= 255,
    ;
}

fn blend_channel_exec(source: u8, dest: u8, alpha: u8) -> (r: u8)
    ensures
        r == blend_channel(source as int, dest as int, alpha as int),
{
    proof {
        lemma_blend_channel_bounds(source as int, dest as int, alpha as int);
        assert((source as int) * (alpha as int) + (dest as int) * (255 - alpha as int) <= 255
            * 255 && (source as int) * (alpha as int) >= 0 && (dest as int) * (255 - alpha as int)
            >= 0) by (nonlinear_arith)
            requires
                source <= 255,
                dest <= 255,
                alpha <= 255,
        ;
    }
    let num: u32 = (source as u32) * (alpha as u32) + (dest as u32) * (255u32 - (alpha as u32))
        + 127;
    (num / 255) as u8
}

/// Composite a stamp pixel of the given color and coverage over `dest`.
pub fn blend_pixel_exec(color: Rgb, alpha: u8, dest: Pixel) -> (p: Pixel)
    ensures
        p == blend_pixel(color, alpha as int, dest),
{
    Pixel {
        r: blend_channel_exec(color.r, dest.r, alpha),
        g: blend_channel_exec(color.g, dest.g, alpha),
        b: blend_channel_exec(color.b, dest.b, alpha),
        a: blend_channel_exec(255, dest.a, alpha),
    }
}

/// Positions `(x1, y1)` and `(x2, y2)` inside a grid of row length `w` have
/// the same linear index only when they are the same position.
pub proof fn lemma_grid_index_injective(x1: int, y1: int, x2: int, y2: int, w: int)
    requires
        0 <= x1 < w,
        0 <= x2 < w,
        0 <= y1,
        0 <= y2,
        y1 * w + x1 == y2 * w + x2,
    ensures
        x1 == x2 && y1 == y2,
{
    assert(y1 == y2 && x1 == x2) by (nonlinear_arith)
        requires
            0 <= x1 < w,
            0 <= x2 < w,
            0 <= y1,
            0 <= y2,
            y1 * w + x1 == y2 * w + x2,
    ;
}

/// The linear index of an in-bounds position lies inside the pixel buffer.
pub proof fn lemma_grid_index_bounds(x: int, y: int, w: int, h: int)
    requires
        0 <= x < w,
        0 <= y < h,
    ensures
        0 <= y * w + x < w * h,
{
    assert(0 <= y * w + x < w * h) by (nonlinear_arith)
        requires
            0 <= x < w,
            0 <= y < h,
    ;
}

/// A `width x height` grid of RGBA pixels in row-major order.
pub struct Canvas {
    pub width: u32,
    pub height: u32,
    pub pixels: Vec<Pixel>,
}

impl Canvas {
    /// The pixel buffer matches the dimensions, which stay within the
    /// supported canvas size.
    pub open spec fn wf(self) -> bool {
        &&& self.width <= 0x8000
        &&& self.height <= 0x8000
        &&& self.pixels.len() == self.width * self.height
    }

    /// `(x, y)` lies on the canvas.
    pub open spec fn contains(self, x: int, y: int) -> bool {
        &&& 0 <= x < self.width
        &&& 0 <= y < self.height
    }

    /// The pixel at `(x, y)`.
    pub open spec fn pixel_at(self, x: int, y: int) -> Pixel {
        self.pixels@[y * self.width + x]
    }

    /// A canvas of the given size with every pixel set to `fill`.
    pub fn new(width: u32, height: u32, fill: Pixel) -> (c: Canvas)
        requires
            width <= 0x8000,
            height <= 0x8000,
        ensures
            c.wf(),
            c.width == width,
            c.height == height,
            forall|x: int, y: int| c.contains(x, y) ==> c.pixel_at(x, y) == fill,
    {
        proof {
            assert((width as int) * (height as int) <= 0x4000_0000) by (nonlinear_arith)
                requires
                    width <= 0x8000,
                    height <= 0x8000,
            ;
        }
        let n: usize = (width as usize) * (height as usize);
        let mut pixels: Vec<Pixel> = Vec::new();
        let mut i: usize = 0;
        while i < n
            invariant
                i <= n,
                n == width * height,
                pixels@.len() == i,
                forall|k: int| 0 <= k < i ==> pixels@[k] == fill,
            decreases n - i,
        {
            pixels.push(fill);
            i = i + 1;
        }
        let c = Canvas { width, height, pixels };
        proof {
            assert forall|x: int, y: int| c.contains(x, y) implies c.pixel_at(x, y) == fill by {
                lemma_grid_index_bounds(x, y, width as int, height as int);
            }
        }
        c
    }

    /// A canvas over an existing row-major pixel buffer.
    pub fn from_pixels(width: u32, height: u32, pixels: Vec<Pixel>) -> (c: Canvas)
        requires
            width <= 0x8000,
            height <= 0x8000,
            pixels@.len() == width * height,
        ensures
            c.wf(),
            c.width == width,
            c.height == height,
            c.pixels@ == pixels@,
    {
        Canvas { width, height, pixels }
    }

    /// Read the pixel at `(x, y)`.
    pub fn get_pixel(&self, x: u32, y: u32) -> (p: Pixel)
        requires
            self.wf(),
            x < self.width,
            y < self.height,
        ensures
            p == self.pixel_at(x as int, y as int),
    {
        proof {
            lemma_grid_index_bounds(x as int, y as int, self.width as int, self.height as int);
        }
        let idx: usize = (y as usize) * (self.width as usize) + (x as usize);
        self.pixels[idx]
    }

    /// Overwrite the pixel at `(x, y)`; every other pixel keeps its value.
    pub fn set_pixel(&mut self, x: u32, y: u32, p: Pixel)
        requires
            old(self).wf(),
            x < old(self).width,
            y < old(self).height,
        ensures
            final(self).wf(),
            final(self).width == old(self).width,
            final(self).height == old(self).height,
            final(self).pixel_at(x as int, y as int) == p,
            forall|x2: int, y2: int|
                old(self).contains(x2, y2) && !(x2 == x && y2 == y) ==> final(self).pixel_at(
                    x2,
                    y2,
                ) == old(self).pixel_at(x2, y2),
    {
        proof {
            lemma_grid_index_bounds(x as int, y as int, self.width as int, self.height as int);
        }
        let idx: usize = (y as usize) * (self.width as usize) + (x as usize);
        self.pixels.set(idx, p);
        proof {
            assert forall|x2: int, y2: int|
                old(self).contains(x2, y2) && !(x2 == x && y2 == y) implies self.pixel_at(x2, y2)
                == old(self).pixel_at(x2, y2) by {
                lemma_grid_index_bounds(x2, y2, self.width as int, self.height as int);
                if y2 * self.width + x2 == idx {
                    lemma_grid_index_injective(x2, y2, x as int, y as int, self.width as int);
                }
            }
        }
    }
}

} // verus!

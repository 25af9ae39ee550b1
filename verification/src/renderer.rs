//! Drawing primitives and the per-frame snapshot/reset cycle.
//!
//! A `Renderer` owns one `PixelBuffer`. The drawing primitives only
//! touch that in-process buffer; `render` hands the finished frame out
//! as a plain pixel stream for a platform surface to present, and
//! resets the buffer so the next frame starts from a known state.

use vstd::prelude::*;
use crate::pixel_buffer::PixelBuffer;
use crate::pixel_buffer::ZERO_COLOR;

verus! {

/// The fixed color of grid dots drawn by `draw_grid`.
pub const GRID_COLOR: u32 = 0xFF333333;

/// Owns the pixel buffer and drives the accumulate/present cycle.
pub struct Renderer {
    buffer: PixelBuffer,
}

impl Renderer {
    pub closed spec fn wf(self) -> bool {
        self.buffer.wf()
    }

    pub closed spec fn spec_width(self) -> usize {
        self.buffer.spec_width()
    }

    pub closed spec fn spec_height(self) -> usize {
        self.buffer.spec_height()
    }

    pub open spec fn in_bounds(self, x: int, y: int) -> bool {
        0 <= x < self.spec_width() && 0 <= y < self.spec_height()
    }

    /// The color currently accumulated at coordinate `(x, y)`.
    pub closed spec fn color_at(self, x: int, y: int) -> u32 {
        self.buffer.color_at(x, y)
    }

    /// Creates a renderer for a fixed `width * height` target, its
    /// buffer zero-initialized.
    pub fn new(width: usize, height: usize) -> (r: Renderer)
        requires
            1 <= width,
            1 <= height,
            width * height <= usize::MAX,
        ensures
            r.wf(),
            r.spec_width() == width,
            r.spec_height() == height,
            forall|x: int, y: int| #![trigger r.color_at(x, y)]
                r.in_bounds(x, y) ==> r.color_at(x, y) == ZERO_COLOR,
    {
        Renderer { buffer: PixelBuffer::new(width, height) }
    }

    pub fn width(&self) -> (w: usize)
        ensures
            w == self.spec_width(),
    {
        self.buffer.width()
    }

    pub fn height(&self) -> (h: usize)
        ensures
            h == self.spec_height(),
    {
        self.buffer.height()
    }

    /// Reads the accumulated color at an in-bounds coordinate.
    pub fn get_pixel(&self, x: usize, y: usize) -> (color: u32)
        requires
            self.wf(),
            x < self.spec_width(),
            y < self.spec_height(),
        ensures
            color == self.color_at(x as int, y as int),
    {
        self.buffer.get_pixel(x, y)
    }

    /// Resets every pixel of the buffer to the zero color.
    pub fn clear(&mut self)
        requires
            old(self).wf(),
        ensures
            final(self).wf(),
            final(self).spec_width() == old(self).spec_width(),
            final(self).spec_height() == old(self).spec_height(),
            forall|x: int, y: int| #![trigger final(self).color_at(x, y)]
                final(self).in_bounds(x, y) ==> final(self).color_at(x, y) == ZERO_COLOR,
    {
        self.buffer.clear();
    }

    /// Fills the axis-aligned rectangle `[x, x+width) x [y, y+height)`
    /// with `color`. Parts of the rectangle outside the buffer are
    /// silently clipped by the pixel write policy.
    pub fn draw_rect(&mut self, x: u32, y: u32, width: u32, height: u32, color: u32)
        requires
            old(self).wf(),
            x + width <= u32::MAX,
            y + height <= u32::MAX,
        ensures
            final(self).wf(),
            final(self).spec_width() == old(self).spec_width(),
            final(self).spec_height() == old(self).spec_height(),
            forall|a: int, b: int| #![trigger final(self).color_at(a, b)]
                final(self).in_bounds(a, b) ==> final(self).color_at(a, b) == (if x <= a < x
                    + width && y <= b < y + height {
                    color
                } else {
                    old(self).color_at(a, b)
                }),
    {
        let ghost orig = *self;
        let x_end: u32 = x + width;
        let y_end: u32 = y + height;
        let mut i: u32 = x;
        while i < x_end
            invariant
                x <= i <= x_end,
                x_end == x + width,
                y_end == y + height,
                self.wf(),
                self.spec_width() == orig.spec_width(),
                self.spec_height() == orig.spec_height(),
                orig.wf(),
                forall|a: int, b: int| #![trigger self.color_at(a, b)]
                    self.in_bounds(a, b) ==> self.color_at(a, b) == (if x <= a < i && y <= b
                        < y_end {
                        color
                    } else {
                        orig.color_at(a, b)
                    }),
            decreases x_end - i,
        {
            let mut j: u32 = y;
            while j < y_end
                invariant
                    x <= i < x_end,
                    y <= j <= y_end,
                    x_end == x + width,
                    y_end == y + height,
                    self.wf(),
                    self.spec_width() == orig.spec_width(),
                    self.spec_height() == orig.spec_height(),
                    orig.wf(),
                    forall|a: int, b: int| #![trigger self.color_at(a, b)]
                        self.in_bounds(a, b) ==> self.color_at(a, b) == (if (x <= a < i && y <= b
                            < y_end) || (a == i && y <= b < j) {
                            color
                        } else {
                            orig.color_at(a, b)
                        }),
                decreases y_end - j,
            {
                let ghost prev = *self;
                self.buffer.set_pixel(i as usize, j as usize, color);
                proof {
                    assert forall|a: int, b: int| #![trigger self.color_at(a, b)]
                        self.in_bounds(a, b) implies self.color_at(a, b) == (if a == i && b == j {
                        color
                    } else {
                        prev.color_at(a, b)
                    }) by {}
                }
                j += 1;
            }
            i += 1;
        }
    }

    /// Stamps a dot grid: sets `GRID_COLOR` at every in-bounds pixel
    /// whose coordinates are both multiples of `spacing`. A `spacing`
    /// of zero is treated as a no-op, leaving the buffer unchanged.
    pub fn draw_grid(&mut self, spacing: usize)
        requires
            old(self).wf(),
        ensures
            final(self).wf(),
            final(self).spec_width() == old(self).spec_width(),
            final(self).spec_height() == old(self).spec_height(),
            spacing == 0 ==> *final(self) == *old(self),
            spacing >= 1 ==> forall|a: int, b: int| #![trigger final(self).color_at(a, b)]
                final(self).in_bounds(a, b) ==> final(self).color_at(a, b) == (if a % (
                spacing as int) == 0 && b % (spacing as int) == 0 {
                    GRID_COLOR
                } else {
                    old(self).color_at(a, b)
                }),
    {
        if spacing == 0 {
            return ;
        }
        let ghost orig = *self;
        let w: usize = self.width();
        let h: usize = self.height();
        let mut i: usize = 0;
        while i < w
            invariant
                i <= w,
                spacing >= 1,
                w == self.spec_width(),
                h == self.spec_height(),
                self.wf(),
                self.spec_width() == orig.spec_width(),
                self.spec_height() == orig.spec_height(),
                orig.wf(),
                forall|a: int, b: int| #![trigger self.color_at(a, b)]
                    self.in_bounds(a, b) ==> self.color_at(a, b) == (if a % (spacing as int) == 0
                        && b % (spacing as int) == 0 && a < i {
                        GRID_COLOR
                    } else {
                        orig.color_at(a, b)
                    }),
            decreases w - i,
        {
            if i % spacing == 0 {
                let mut j: usize = 0;
                while j < h
                    invariant
                        i < w,
                        j <= h,
                        spacing >= 1,
                        (i as int) % (spacing as int) == 0,
                        w == self.spec_width(),
                        h == self.spec_height(),
                        self.wf(),
                        self.spec_width() == orig.spec_width(),
                        self.spec_height() == orig.spec_height(),
                        orig.wf(),
                        forall|a: int, b: int| #![trigger self.color_at(a, b)]
                            self.in_bounds(a, b) ==> self.color_at(a, b) == (if (a % (
                            spacing as int) == 0 && b % (spacing as int) == 0 && a < i) || (a == i
                                && b % (spacing as int) == 0 && b < j) {
                                GRID_COLOR
                            } else {
                                orig.color_at(a, b)
                            }),
                    decreases h - j,
                {
                    if j % spacing == 0 {
                        let ghost prev = *self;
                        self.buffer.set_pixel(i, j, GRID_COLOR);
                        proof {
                            assert forall|a: int, b: int| #![trigger self.color_at(a, b)]
                                self.in_bounds(a, b) implies self.color_at(a, b) == (if a == i && b
                                == j {
                                GRID_COLOR
                            } else {
                                prev.color_at(a, b)
                            }) by {}
                        }
                    }
                    j += 1;
                }
            }
            i += 1;
        }
    }

    /// Ends the frame: returns the accumulated pixels as one row-major
    /// stream for the platform surface to upload and present, and
    /// resets the buffer to the post-frame fill state, the zero color,
    /// so the next frame starts from a known state.
    pub fn render(&mut self) -> (frame: Vec<u32>)
        requires
            old(self).wf(),
        ensures
            final(self).wf(),
            final(self).spec_width() == old(self).spec_width(),
            final(self).spec_height() == old(self).spec_height(),
            frame@.len() == (old(self).spec_width() as int) * (old(self).spec_height() as int),
            forall|x: int, y: int| #![trigger old(self).color_at(x, y)]
                old(self).in_bounds(x, y) ==> frame@[y * (old(self).spec_width() as int) + x]
                    == old(self).color_at(x, y),
            forall|x: int, y: int| #![trigger final(self).color_at(x, y)]
                final(self).in_bounds(x, y) ==> final(self).color_at(x, y) == ZERO_COLOR,
    {
        let frame = self.buffer.frame();
        self.buffer.clear();
        frame
    }
}

} // verus!

//! The in-memory grid of packed 32-bit pixel colors.
//!
//! A `PixelBuffer` holds `width * height` colors in row-major order
//! (index `y * width + x`). Writes outside the grid are silently
//! ignored: that is the documented clipping policy, not an error.

use vstd::prelude::*;

verus! {

/// The zero color: fully transparent/black in the packed format.
pub const ZERO_COLOR: u32 = 0;

/// Row-major index `y * w + x` stays inside a `w * h` grid.
pub proof fn lemma_index_in_range(x: int, y: int, w: int, h: int)
    requires
        0 <= x < w,
        0 <= y < h,
    ensures
        0 <= y * w + x < w * h,
{
    assert(0 <= y * w + x < w * h) by (nonlinear_arith)
        requires
            0 <= x < w,
            0 <= y < h,
    ;
}

/// Distinct in-bounds coordinates map to distinct row-major indices.
pub proof fn lemma_index_injective(x1: int, y1: int, x2: int, y2: int, w: int)
    requires
        0 <= x1 < w,
        0 <= x2 < w,
        0 <= y1,
        0 <= y2,
        !(x1 == x2 && y1 == y2),
    ensures
        y1 * w + x1 != y2 * w + x2,
{
    assert(y1 * w + x1 != y2 * w + x2) by (nonlinear_arith)
        requires
            0 <= x1 < w,
            0 <= x2 < w,
            0 <= y1,
            0 <= y2,
            !(x1 == x2 && y1 == y2),
    ;
}

/// A fixed-size grid of packed 32-bit colors, stored row-major.
pub struct PixelBuffer {
    width: usize,
    height: usize,
    pixels: Vec<u32>,
}

impl PixelBuffer {
    /// Well-formedness: positive dimensions and exactly one stored
    /// color per grid cell.
    pub closed spec fn wf(self) -> bool {
        &&& 1 <= self.width
        &&& 1 <= self.height
        &&& self.pixels@.len() == (self.width as int) * (self.height as int)
    }

    pub closed spec fn spec_width(self) -> usize {
        self.width
    }

    pub closed spec fn spec_height(self) -> usize {
        self.height
    }

    pub open spec fn in_bounds(self, x: int, y: int) -> bool {
        0 <= x < self.spec_width() && 0 <= y < self.spec_height()
    }

    /// The color stored at coordinate `(x, y)`.
    pub closed spec fn color_at(self, x: int, y: int) -> u32 {
        self.pixels@[y * (self.width as int) + x]
    }

    /// Allocates a `width * height` buffer with every cell set to the
    /// zero color.
    pub fn new(width: usize, height: usize) -> (buf: PixelBuffer)
        requires
            1 <= width,
            1 <= height,
            width * height <= usize::MAX,
        ensures
            buf.wf(),
            buf.spec_width() == width,
            buf.spec_height() == height,
            forall|x: int, y: int| #![trigger buf.color_at(x, y)]
                buf.in_bounds(x, y) ==> buf.color_at(x, y) == ZERO_COLOR,
    {
        let n: usize = width * height;
        let mut pixels: Vec<u32> = Vec::new();
        while pixels.len() < n
            invariant
                pixels@.len() <= n,
                forall|k: int| 0 <= k < pixels@.len() ==> pixels@[k] == ZERO_COLOR,
            decreases n - pixels@.len(),
        {
            pixels.push(ZERO_COLOR);
        }
        let buf = PixelBuffer { width, height, pixels };
        proof {
            assert forall|x: int, y: int| buf.in_bounds(x, y) implies buf.color_at(x, y)
                == ZERO_COLOR by {
                lemma_index_in_range(x, y, width as int, height as int);
            }
        }
        buf
    }

    pub fn width(&self) -> (w: usize)
        ensures
            w == self.spec_width(),
    {
        self.width
    }

    pub fn height(&self) -> (h: usize)
        ensures
            h == self.spec_height(),
    {
        self.height
    }

    /// Reads the color at an in-bounds coordinate.
    pub fn get_pixel(&self, x: usize, y: usize) -> (color: u32)
        requires
            self.wf(),
            x < self.spec_width(),
            y < self.spec_height(),
        ensures
            color == self.color_at(x as int, y as int),
    {
        proof {
            lemma_index_in_range(x as int, y as int, self.width as int, self.height as int);
        }
        // Binding the length shows the index fits in usize.
        let _len: usize = self.pixels.len();
        self.pixels[y * self.width + x]
    }

    /// Sets every cell to `color`.
    pub fn fill(&mut self, color: u32)
        requires
            old(self).wf(),
        ensures
            final(self).wf(),
            final(self).spec_width() == old(self).spec_width(),
            final(self).spec_height() == old(self).spec_height(),
            forall|x: int, y: int| #![trigger final(self).color_at(x, y)]
                final(self).in_bounds(x, y) ==> final(self).color_at(x, y) == color,
    {
        let ghost orig = *self;
        let n: usize = self.pixels.len();
        let mut idx: usize = 0;
        while idx < n
            invariant
                idx <= n,
                self.width == orig.width,
                self.height == orig.height,
                self.pixels@.len() == n,
                forall|k: int| 0 <= k < idx ==> self.pixels@[k] == color,
            decreases n - idx,
        {
            self.pixels[idx] = color;
            idx += 1;
        }
        proof {
            assert forall|x: int, y: int| self.in_bounds(x, y) implies self.color_at(x, y)
                == color by {
                lemma_index_in_range(x, y, self.width as int, self.height as int);
            }
        }
    }

    /// Sets every cell to the zero color.
    pub fn clear(&mut self)
        requires
            old(self).wf(),
        ensures
            final(self).wf(),
            final(self).spec_width() == old(self).spec_width(),
            final(self).spec_height() == old(self).spec_height(),
            forall|x: int, y: int| #![trigger final(self).color_at(x, y)]
                final(self).in_bounds(x, y) ==> final(self).color_at(x, y) == ZERO_COLOR,
    {
        self.fill(ZERO_COLOR);
    }

    /// Writes `color` at `(x, y)` if that coordinate is inside the
    /// grid; outside the grid the call is a no-op, never a panic.
    pub fn set_pixel(&mut self, x: usize, y: usize, color: u32)
        requires
            old(self).wf(),
        ensures
            final(self).wf(),
            final(self).spec_width() == old(self).spec_width(),
            final(self).spec_height() == old(self).spec_height(),
            forall|i: int, j: int| #![trigger final(self).color_at(i, j)]
                final(self).in_bounds(i, j) ==> final(self).color_at(i, j) == (if i == x && j
                    == y {
                    color
                } else {
                    old(self).color_at(i, j)
                }),
            !(x < old(self).spec_width() && y < old(self).spec_height()) ==> *final(self) == *old(
                self,
            ),
    {
        if x < self.width && y < self.height {
            proof {
                lemma_index_in_range(x as int, y as int, self.width as int, self.height as int);
            }
            // Binding the length shows the index fits in usize.
            let _len: usize = self.pixels.len();
            let idx: usize = y * self.width + x;
            self.pixels[idx] = color;
            proof {
                assert forall|i: int, j: int| self.in_bounds(i, j) implies self.color_at(i, j)
                    == (if i == x && j == y {
                    color
                } else {
                    old(self).color_at(i, j)
                }) by {
                    lemma_index_in_range(i, j, self.width as int, self.height as int);
                    if !(i == x && j == y) {
                        lemma_index_injective(i, j, x as int, y as int, self.width as int);
                    }
                }
            }
        }
    }

    /// Copies the buffer out as one row-major frame, the pixel stream
    /// a presentation surface accepts.
    pub fn frame(&self) -> (frame: Vec<u32>)
        requires
            self.wf(),
        ensures
            frame@.len() == (self.spec_width() as int) * (self.spec_height() as int),
            forall|x: int, y: int| #![trigger self.color_at(x, y)]
                self.in_bounds(x, y) ==> frame@[y * (self.spec_width() as int) + x]
                    == self.color_at(x, y),
    {
        let n: usize = self.pixels.len();
        let mut frame: Vec<u32> = Vec::new();
        let mut idx: usize = 0;
        while idx < n
            invariant
                idx <= n,
                n == self.pixels@.len(),
                frame@.len() == idx,
                forall|k: int| 0 <= k < idx ==> frame@[k] == self.pixels@[k],
            decreases n - idx,
        {
            let v: u32 = self.pixels[idx];
            frame.push(v);
            idx += 1;
        }
        proof {
            assert forall|x: int, y: int| self.in_bounds(x, y) implies frame@[y * (
            self.spec_width() as int) + x] == self.color_at(x, y) by {
                lemma_index_in_range(x, y, self.width as int, self.height as int);
            }
        }
        frame
    }
}

} // verus!

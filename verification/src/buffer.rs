//! A decoded image as a plain grid of RGB bytes, and the luma metric the
//! seam scoring reads from it.

use vstd::prelude::*;

verus! {

/// Integer luma of one pixel: `(299*R + 587*G + 114*B) / 1000`, the usual
/// perceptual grayscale weights scaled by 1000. The weights sum to 1000, so
/// the value always fits in a byte.
pub open spec fn spec_luma(r: u8, g: u8, b: u8) -> u8 {
    ((299 * (r as int) + 587 * (g as int) + 114 * (b as int)) / 1000) as u8
}

/// Absolute difference of two luma values.
pub open spec fn spec_abs_diff(a: u8, b: u8) -> int {
    if a >= b {
        a - b
    } else {
        b - a
    }
}

/// Converts one pixel's channels to its luma value.
pub fn pixel_to_grayscale(r: u8, g: u8, b: u8) -> (gray: u8)
    ensures
        gray == spec_luma(r, g, b),
{
    let sum: u32 = 299 * r as u32 + 587 * g as u32 + 114 * b as u32;
    assert(sum / 1000 <= 255);
    (sum / 1000) as u8
}

/// Difference between two adjacent grayscale pixels.
pub fn calculate_pixel_difference_gray(gray1: u8, gray2: u8) -> (diff: u8)
    ensures
        diff == spec_abs_diff(gray1, gray2),
{
    if gray1 >= gray2 {
        gray1 - gray2
    } else {
        gray2 - gray1
    }
}

/// A decoded image: `width * height` pixels, row-major, three bytes (R, G, B)
/// per pixel. Read-only while one image is being split. Built with
/// [`PixelBuffer::new`] or [`PixelBuffer::filled`], which establish [`PixelBuffer::wf`].
pub struct PixelBuffer {
    pub width: u32,
    pub height: u32,
    pub data: Vec<u8>,
}

impl PixelBuffer {
    /// The byte vector holds exactly three bytes for every pixel.
    pub open spec fn wf(self) -> bool {
        &&& self.data@.len() == 3 * (self.width as int) * (self.height as int)
        &&& self.data@.len() <= usize::MAX
    }

    pub open spec fn spec_width(self) -> u32 {
        self.width
    }

    pub open spec fn spec_height(self) -> u32 {
        self.height
    }

    /// Channel `c` (0 = R, 1 = G, 2 = B) of the pixel at column `x`, row `y`.
    pub open spec fn chan(self, x: int, y: int, c: int) -> u8
        recommends
            self.wf(),
            0 <= x < self.width,
            0 <= y < self.height,
            0 <= c < 3,
    {
        self.data@[3 * (y * (self.width as int) + x) + c]
    }

    /// Luma of the pixel at column `x`, row `y`.
    pub open spec fn gray(self, x: int, y: int) -> u8
        recommends
            self.wf(),
            0 <= x < self.width,
            0 <= y < self.height,
    {
        spec_luma(self.chan(x, y, 0), self.chan(x, y, 1), self.chan(x, y, 2))
    }

    /// Wraps a decoded byte grid. Returns `None` exactly when the byte count
    /// does not match `3 * width * height`.
    pub fn new(width: u32, height: u32, data: Vec<u8>) -> (r: Option<PixelBuffer>)
        ensures
            match r {
                Some(b) => b.wf() && b.spec_width() == width && b.spec_height() == height,
                None => data@.len() != 3 * (width as int) * (height as int),
            },
    {
        let n: usize = data.len();
        proof {
            assert(3 * (width as int) * (height as int) <= 3 * 0xffff_ffffint * 0xffff_ffffint)
                by (nonlinear_arith)
                requires
                    width <= 0xffff_ffffu32,
                    height <= 0xffff_ffffu32,
            ;
        }
        if n as u128 == 3 * (width as u128) * (height as u128) {
            Some(PixelBuffer { width, height, data })
        } else {
            None
        }
    }

    /// A buffer of one uniform color.
    pub fn filled(width: u32, height: u32, r: u8, g: u8, b: u8) -> (buf: PixelBuffer)
        requires
            3 * (width as int) * (height as int) <= usize::MAX,
        ensures
            buf.wf(),
            buf.spec_width() == width,
            buf.spec_height() == height,
            forall|x: int, y: int|
                0 <= x < width && 0 <= y < height ==> buf.gray(x, y) == spec_luma(r, g, b),
    {
        let total: usize = if width == 0 || height == 0 {
            proof {
                assert(3 * (width as int) * (height as int) == 0) by (nonlinear_arith)
                    requires
                        width == 0 || height == 0,
                ;
            }
            0
        } else {
            proof {
                assert(3 * (width as int) <= 3 * (width as int) * (height as int))
                    by (nonlinear_arith)
                    requires
                        height >= 1,
                        width >= 0,
                ;
            }
            3 * (width as usize) * (height as usize)
        };
        let mut data: Vec<u8> = Vec::new();
        let mut i: usize = 0;
        while i < total
            invariant
                i <= total,
                data@.len() == i,
                forall|j: int| 0 <= j < i ==> data@[j] == (if j % 3 == 0 {
                    r
                } else if j % 3 == 1 {
                    g
                } else {
                    b
                }),
            decreases total - i,
        {
            if i % 3 == 0 {
                data.push(r);
            } else if i % 3 == 1 {
                data.push(g);
            } else {
                data.push(b);
            }
            i = i + 1;
        }
        let buf = PixelBuffer { width, height, data };
        proof {
            assert forall|x: int, y: int|
                0 <= x < width && 0 <= y < height implies buf.gray(x, y) == spec_luma(r, g, b) by {
                lemma_pixel_base_in_range(width, height, x, y);
                let base = 3 * (y * (width as int) + x);
                assert(base % 3 == 0 && (base + 1) % 3 == 1 && (base + 2) % 3 == 2)
                    by (nonlinear_arith)
                    requires
                        base == 3 * (y * (width as int) + x),
                        0 <= y * (width as int) + x,
                ;
            }
        }
        buf
    }

    /// Overwrites the pixel at column `x`, row `y`.
    pub fn set_pixel(&mut self, x: u32, y: u32, r: u8, g: u8, b: u8)
        requires
            old(self).wf(),
            x < old(self).spec_width(),
            y < old(self).spec_height(),
        ensures
            final(self).wf(),
            final(self).spec_width() == old(self).spec_width(),
            final(self).spec_height() == old(self).spec_height(),
            final(self).gray(x as int, y as int) == spec_luma(r, g, b),
            forall|xx: int, yy: int|
                0 <= xx < old(self).spec_width() && 0 <= yy < old(self).spec_height()
                    && !(xx == x as int && yy == y as int)
                    ==> final(self).gray(xx, yy) == old(self).gray(xx, yy),
    {
        proof {
            lemma_pixel_base_in_range(self.width, self.height, x as int, y as int);
        }
        let base: usize = 3 * ((y as usize) * (self.width as usize) + (x as usize));
        self.data.set(base, r);
        self.data.set(base + 1, g);
        self.data.set(base + 2, b);
        proof {
            assert forall|xx: int, yy: int|
                0 <= xx < old(self).spec_width() && 0 <= yy < old(self).spec_height()
                    && !(xx == x as int && yy == y as int)
                    implies self.gray(xx, yy) == old(self).gray(xx, yy) by {
                lemma_pixel_base_in_range(old(self).width, old(self).height, xx, yy);
                lemma_pixel_bases_distinct(self.width as int, xx, yy, x as int, y as int);
            }
        }
    }

    /// The vertical slice `[start_y, end_y)` of the image, full width: the
    /// pixels of the cropped buffer are those of rows `start_y..end_y`.
    pub fn crop_rows(&self, start_y: u32, end_y: u32) -> (r: PixelBuffer)
        requires
            self.wf(),
            start_y <= end_y,
            end_y <= self.spec_height(),
        ensures
            r.wf(),
            r.spec_width() == self.spec_width(),
            r.spec_height() == end_y - start_y,
            forall|x: int, y: int|
                0 <= x < self.spec_width() && 0 <= y < end_y - start_y ==> r.gray(x, y)
                    == self.gray(x, y + start_y),
    {
        let w: usize = self.width as usize;
        proof {
            lemma_row_bounds(self.width, self.height, start_y as int, end_y as int);
        }
        let lo: usize = 3 * ((start_y as usize) * w);
        let hi: usize = 3 * ((end_y as usize) * w);
        let mut data: Vec<u8> = Vec::new();
        let mut i: usize = lo;
        while i < hi
            invariant
                lo <= i <= hi,
                hi <= self.data@.len(),
                data@.len() == i - lo,
                forall|j: int| 0 <= j < i - lo ==> data@[j] == self.data@[lo + j],
            decreases hi - i,
        {
            data.push(self.data[i]);
            i = i + 1;
        }
        let r = PixelBuffer { width: self.width, height: end_y - start_y, data };
        proof {
            let wi = self.width as int;
            assert(hi - lo == 3 * wi * (end_y - start_y)) by (nonlinear_arith)
                requires
                    lo == 3 * ((start_y as int) * wi),
                    hi == 3 * ((end_y as int) * wi),
            ;
            assert forall|x: int, y: int|
                0 <= x < self.spec_width() && 0 <= y < end_y - start_y implies r.gray(x, y)
                == self.gray(x, y + start_y) by {
                lemma_pixel_base_in_range(r.width, r.height, x, y);
                assert(lo + 3 * (y * wi + x) == 3 * ((y + start_y) * wi + x)) by (nonlinear_arith)
                    requires
                        lo == 3 * ((start_y as int) * wi),
                ;
                lemma_pixel_base_in_range(self.width, self.height, x, y + start_y);
            }
        }
        r
    }

    pub fn width(&self) -> (w: u32)
        ensures
            w == self.spec_width(),
    {
        self.width
    }

    pub fn height(&self) -> (h: u32)
        ensures
            h == self.spec_height(),
    {
        self.height
    }

    /// Luma of the pixel at column `x`, row `y`.
    pub fn gray_at(&self, x: u32, y: u32) -> (g: u8)
        requires
            self.wf(),
            x < self.spec_width(),
            y < self.spec_height(),
        ensures
            g == self.gray(x as int, y as int),
    {
        proof {
            lemma_pixel_base_in_range(self.width, self.height, x as int, y as int);
        }
        let base: usize = 3 * ((y as usize) * (self.width as usize) + (x as usize));
        pixel_to_grayscale(self.data[base], self.data[base + 1], self.data[base + 2])
    }
}

/// The flat byte range of a row span stays inside the data vector.
proof fn lemma_row_bounds(width: u32, height: u32, start_y: int, end_y: int)
    requires
        0 <= start_y <= end_y <= height,
    ensures
        0 <= 3 * (start_y * (width as int)) <= 3 * (end_y * (width as int)),
        3 * (end_y * (width as int)) <= 3 * (width as int) * (height as int),
{
    assert(0 <= 3 * (start_y * (width as int)) <= 3 * (end_y * (width as int)) && 3 * (end_y
        * (width as int)) <= 3 * (width as int) * (height as int)) by (nonlinear_arith)
        requires
            0 <= start_y <= end_y <= height,
            width >= 0,
    ;
}

/// The flat index of a pixel's first byte stays inside the data vector.
proof fn lemma_pixel_base_in_range(width: u32, height: u32, x: int, y: int)
    requires
        0 <= x < width,
        0 <= y < height,
    ensures
        0 <= y * (width as int) + x,
        3 * (y * (width as int) + x) + 2 < 3 * (width as int) * (height as int),
{
    assert(0 <= y * (width as int) + x && y * (width as int) + x < (width as int) * (height as int))
        by (nonlinear_arith)
        requires
            0 <= x < width,
            0 <= y < height,
    ;
    assert(3 * (y * (width as int) + x) + 2 < 3 * (width as int) * (height as int))
        by (nonlinear_arith)
        requires
            y * (width as int) + x < (width as int) * (height as int),
    ;
}

/// Distinct pixels occupy disjoint byte triples.
proof fn lemma_pixel_bases_distinct(width: int, x1: int, y1: int, x2: int, y2: int)
    requires
        0 <= x1 < width,
        0 <= x2 < width,
        0 <= y1,
        0 <= y2,
        !(x1 == x2 && y1 == y2),
    ensures
        y1 * width + x1 != y2 * width + x2,
{
    if y1 == y2 {
    } else {
        assert(y1 * width + x1 != y2 * width + x2) by (nonlinear_arith)
            requires
                0 <= x1 < width,
                0 <= x2 < width,
                y1 != y2,
        ;
    }
}

} // verus!

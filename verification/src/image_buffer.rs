//! A row-major RGB byte image.
//!
//! The buffer stores three bytes per pixel, top row first, left to right
//! within a row.  `set_pixel` addresses pixels with `x` counted from the
//! left and `y` counted from the bottom, so writing row `y = height - 1`
//! touches the first bytes of the buffer.

use vstd::prelude::*;

verus! {

pub struct ImageDataRGB {
    pub width: u32,
    pub height: u32,
    pub pixels: Vec<u8>,
}

impl ImageDataRGB {
    /// The buffer holds exactly three bytes for each of the
    /// `width * height` pixels.
    pub open spec fn wf(self) -> bool {
        self.pixels@.len() == 3 * self.width * self.height
    }

    /// Byte offset of the first channel of pixel `(x, y)`: `x` from the
    /// left, `y` from the bottom, rows stored top first.
    pub open spec fn pixel_start(self, x: u32, y: u32) -> int {
        3 * (x + (self.height - 1 - y) * self.width)
    }

    /// The red, green and blue bytes of pixel `(x, y)`.
    pub open spec fn rgb_at(self, x: u32, y: u32) -> (u8, u8, u8) {
        (
            self.pixels@[self.pixel_start(x, y)],
            self.pixels@[self.pixel_start(x, y) + 1],
            self.pixels@[self.pixel_start(x, y) + 2],
        )
    }

    /// An in-range pixel's three bytes lie inside the buffer.
    pub proof fn lemma_pixel_start_in_range(self, x: u32, y: u32)
        requires
            self.wf(),
            x < self.width,
            y < self.height,
        ensures
            0 <= self.pixel_start(x, y),
            self.pixel_start(x, y) + 2 < self.pixels@.len(),
    {
        let w: int = self.width as int;
        let h: int = self.height as int;
        assert(0 <= x + (h - 1 - y) * w && 3 * (x + (h - 1 - y) * w) + 2 < 3 * w * h)
            by (nonlinear_arith)
            requires
                0 <= x < w,
                0 <= y < h,
        ;
    }

    /// A `width` by `height` image with every byte zero (a black image).
    pub fn new(width: u32, height: u32) -> (image: Self)
        requires
            3 * width * height <= u32::MAX,
        ensures
            image.wf(),
            image.width == width,
            image.height == height,
            image.pixels@ == Seq::new((3 * width * height) as nat, |k: int| 0u8),
    {
        proof {
            assert(width * height * 3 == 3 * width * height && width * height <= width * height
                * 3) by (nonlinear_arith)
                requires
                    0 <= width,
                    0 <= height,
            ;
        }
        let pixels_len: usize = (width * height * 3) as usize;
        let mut pixels: Vec<u8> = Vec::new();
        let mut k: usize = 0;
        while k < pixels_len
            invariant
                k <= pixels_len,
                pixels@ =~= Seq::new(k as nat, |i: int| 0u8),
            decreases pixels_len - k,
        {
            pixels.push(0u8);
            k = k + 1;
        }
        assert(pixels_len == 3 * width * height);
        assert(pixels@ =~= Seq::new((3 * width * height) as nat, |i: int| 0u8));
        ImageDataRGB { width, height, pixels }
    }

    /// Write one pixel.  A coordinate outside the image leaves the buffer
    /// unchanged; an in-range write replaces exactly the pixel's three
    /// bytes.
    pub fn set_pixel(&mut self, pixel: (u32, u32), rgb: (u8, u8, u8))
        requires
            old(self).wf(),
        ensures
            final(self).wf(),
            final(self).width == old(self).width,
            final(self).height == old(self).height,
            pixel.0 < old(self).width && pixel.1 < old(self).height ==> final(self).pixels@
                == old(self).pixels@
                .update(old(self).pixel_start(pixel.0, pixel.1), rgb.0)
                .update(old(self).pixel_start(pixel.0, pixel.1) + 1, rgb.1)
                .update(old(self).pixel_start(pixel.0, pixel.1) + 2, rgb.2),
            !(pixel.0 < old(self).width && pixel.1 < old(self).height) ==> *final(self) == *old(
                self,
            ),
    {
        if pixel.0 >= self.width || pixel.1 >= self.height {
            return;
        }

        let y: u32 = self.height - pixel.1 - 1;
        let n: usize = self.pixels.len();
        assert(pixel.0 + y * self.width < self.width * self.height && 3 * (pixel.0 + y
            * self.width) + 2 < 3 * self.width * self.height && self.width * self.height <= 3
            * self.width * self.height) by (nonlinear_arith)
            requires
                pixel.0 < self.width,
                y < self.height,
                0 <= pixel.0,
                0 <= y,
        ;
        let cell: usize = pixel.0 as usize + y as usize * self.width as usize;
        let offset: usize = cell * 3;
        self.pixels.set(offset, rgb.0);
        self.pixels.set(offset + 1, rgb.1);
        self.pixels.set(offset + 2, rgb.2);
    }
}

} // verus!

//! The sampler driver's buffer-filling loop.
//!
//! Per-pixel color computation is handed in as a shading function; the
//! loop here owns what can be stated exactly: every pixel of the returned
//! image holds a value the shading function can produce for that
//! coordinate, at the right place in the byte layout.

use crate::image_buffer::ImageDataRGB;
use vstd::prelude::*;

verus! {

/// Distinct cells of a `w` by `h` grid have distinct row-major indices.
proof fn lemma_cell_index_distinct(w: int, h: int, x1: int, r1: int, x2: int, r2: int)
    requires
        0 <= x1 < w,
        0 <= r1 < h,
        0 <= x2 < w,
        0 <= r2 < h,
        !(x1 == x2 && r1 == r2),
    ensures
        x1 + r1 * w != x2 + r2 * w,
{
    if r1 < r2 {
        assert(x1 + r1 * w < x2 + r2 * w) by (nonlinear_arith)
            requires
                0 <= x1 < w,
                0 <= x2,
                r1 < r2,
        ;
    } else if r2 < r1 {
        assert(x2 + r2 * w < x1 + r1 * w) by (nonlinear_arith)
            requires
                0 <= x2 < w,
                0 <= x1,
                r2 < r1,
        ;
    }
}

/// Render a `width` by `height` image by evaluating `shade` once per
/// pixel.  Each pixel of the result holds a color that `shade` can return
/// for that pixel's coordinates.
pub fn render_into<F: Fn(u32, u32) -> (u8, u8, u8)>(width: u32, height: u32, shade: F) -> (image:
    ImageDataRGB)
    requires
        3 * width * height <= u32::MAX,
        forall|i: u32, j: u32| i < width && j < height ==> #[trigger] call_requires(shade, (i, j)),
    ensures
        image.wf(),
        image.width == width,
        image.height == height,
        forall|i: u32, j: u32|
            i < width && j < height ==> call_ensures(shade, (i, j), #[trigger] image.rgb_at(i, j)),
{
    let mut image = ImageDataRGB::new(width, height);
    for j in 0..height
        invariant
            3 * width * height <= u32::MAX,
            forall|i2: u32, j2: u32|
                i2 < width && j2 < height ==> #[trigger] call_requires(shade, (i2, j2)),
            image.wf(),
            image.width == width,
            image.height == height,
            forall|i2: u32, j2: u32|
                i2 < width && j2 < j ==> call_ensures(
                    shade,
                    (i2, j2),
                    #[trigger] image.rgb_at(i2, j2),
                ),
    {
        for i in 0..width
            invariant
                j < height,
                3 * width * height <= u32::MAX,
                forall|i2: u32, j2: u32|
                    i2 < width && j2 < height ==> #[trigger] call_requires(shade, (i2, j2)),
                image.wf(),
                image.width == width,
                image.height == height,
                forall|i2: u32, j2: u32|
                    i2 < width && j2 < j ==> call_ensures(
                        shade,
                        (i2, j2),
                        #[trigger] image.rgb_at(i2, j2),
                    ),
                forall|i2: u32|
                    i2 < i ==> call_ensures(shade, (i2, j), #[trigger] image.rgb_at(i2, j)),
        {
            let rgb = shade(i, j);
            let ghost prev = image;
            image.set_pixel((i, j), rgb);
            proof {
                let w: int = width as int;
                let h: int = height as int;
                prev.lemma_pixel_start_in_range(i, j);
                assert forall|i2: u32, j2: u32|
                    i2 < width && (j2 < j || (j2 == j && i2 < i)) implies image.rgb_at(i2, j2)
                    == prev.rgb_at(i2, j2) by {
                    prev.lemma_pixel_start_in_range(i2, j2);
                    lemma_cell_index_distinct(
                        w,
                        h,
                        i2 as int,
                        h - 1 - j2,
                        i as int,
                        h - 1 - j,
                    );
                }
                assert(image.rgb_at(i, j) == (rgb.0, rgb.1, rgb.2));
                assert(call_ensures(shade, (i, j), image.rgb_at(i, j)));
            }
        }
    }
    image
}

/// The buffer is a function of the pixels alone: two well-formed images of
/// the same dimensions that agree on every pixel are byte-identical.  In
/// particular, re-rendering with a shading function that is fixed pixel by
/// pixel reproduces the output byte for byte.
pub proof fn lemma_pixels_determine_bytes(a: ImageDataRGB, b: ImageDataRGB)
    requires
        a.wf(),
        b.wf(),
        a.width == b.width,
        a.height == b.height,
        forall|x: u32, y: u32| x < a.width && y < a.height ==> a.rgb_at(x, y) == b.rgb_at(x, y),
    ensures
        a.pixels@ == b.pixels@,
{
    let w: int = a.width as int;
    let h: int = a.height as int;
    assert forall|k: int| 0 <= k < a.pixels@.len() implies a.pixels@[k] == b.pixels@[k] by {
        assert(w > 0 && h > 0) by (nonlinear_arith)
            requires
                0 <= w,
                0 <= h,
                0 < 3 * w * h,
        ;
        let c: int = k / 3;
        let rem: int = k % 3;
        assert(k == 3 * c + rem && 0 <= rem < 3 && 0 <= c) by (nonlinear_arith)
            requires
                c == k / 3,
                rem == k % 3,
                0 <= k,
        ;
        assert(3 * c < 3 * w * h);
        assert(c < w * h) by (nonlinear_arith)
            requires
                3 * c < 3 * w * h,
        ;
        let r: int = c / w;
        let x: int = c % w;
        assert(c == w * r + x && 0 <= x < w && 0 <= r) by (nonlinear_arith)
            requires
                r == c / w,
                x == c % w,
                0 <= c,
                0 < w,
        ;
        assert(r < h) by (nonlinear_arith)
            requires
                w * r + x < w * h,
                0 <= x,
                0 < w,
        ;
        let xi: u32 = x as u32;
        let yi: u32 = (h - 1 - r) as u32;
        assert(x + r * w == c) by (nonlinear_arith)
            requires
                c == w * r + x,
        ;
        assert(a.pixel_start(xi, yi) == 3 * (x + r * w));
        assert(a.pixel_start(xi, yi) == 3 * c);
        assert(a.rgb_at(xi, yi) == b.rgb_at(xi, yi));
        if rem == 0 {
            assert(a.pixels@[k] == a.rgb_at(xi, yi).0);
        } else if rem == 1 {
            assert(a.pixels@[k] == a.rgb_at(xi, yi).1);
        } else {
            assert(a.pixels@[k] == a.rgb_at(xi, yi).2);
        }
    }
    assert(a.pixels@ =~= b.pixels@);
}

} // verus!

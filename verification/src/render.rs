//! Assembling an image one pixel at a time.

use vstd::prelude::*;
use crate::image::{Image, Pixel, Raster};

verus! {

/// Where the pixel of column `w` on scanline `h` stands among the pixels of a
/// raster. Scanlines are numbered upwards from the bottom one, and a raster
/// starts with its top scanline, each scanline running from left to right.
pub open spec fn raster_index(w: int, h: int, width: int, height: int) -> int {
    (height - 1 - h) * width + w
}

impl Raster {
    /// The pixel of column `w` on scanline `h`, counted from the bottom.
    pub open spec fn pixel_at(self, w: int, h: int) -> Pixel
        recommends
            self.wf(),
            0 <= w < self.width,
            0 <= h < self.height,
    {
        self.pixels[raster_index(w, h, self.width as int, self.height as int)]
    }
}

/// Positions of a raster are laid out in scan order: a higher scanline comes
/// before a lower one, and within a scanline a column before those to its
/// right; every position falls inside the raster.
pub proof fn lemma_raster_index_order(
    w1: int,
    h1: int,
    w2: int,
    h2: int,
    width: int,
    height: int,
)
    requires
        0 <= w1 < width,
        0 <= w2 < width,
        0 <= h1 < height,
        0 <= h2 < height,
        h1 > h2 || (h1 == h2 && w1 < w2),
    ensures
        0 <= raster_index(w1, h1, width, height) < raster_index(w2, h2, width, height) < width
            * height,
{
    let r1 = height - 1 - h1;
    let r2 = height - 1 - h2;
    assert(0 <= r1 * width) by (nonlinear_arith)
        requires
            0 <= r1,
            0 <= width,
    ;
    if h1 > h2 {
        assert(r1 * width + width <= r2 * width) by (nonlinear_arith)
            requires
                r1 < r2,
                0 <= width,
        ;
    }
    assert(r2 * width + width <= height * width) by (nonlinear_arith)
        requires
            r2 < height,
            0 <= width,
    ;
    assert(height * width == width * height) by (nonlinear_arith);
}

/// Every place among the pixels of a raster belongs to exactly one position:
/// place `i` holds column `i % width` of the scanline `i / width` rows below
/// the top one.
pub proof fn lemma_raster_index_covers(i: int, width: int, height: int)
    requires
        0 <= width,
        0 <= height,
        0 <= i < width * height,
    ensures
        0 <= i % width < width,
        0 <= height - 1 - i / width < height,
        raster_index(i % width, height - 1 - i / width, width, height) == i,
{
    assert(0 < width && 0 < height) by (nonlinear_arith)
        requires
            0 <= width,
            0 <= height,
            0 <= i < width * height,
    ;
    assert(i == (i / width) * width + i % width && 0 <= i % width < width) by (nonlinear_arith)
        requires
            0 < width,
    ;
    assert(0 <= i / width < height) by (nonlinear_arith)
        requires
            0 < width,
            0 <= i < width * height,
    ;
}

/// Renders a `width` by `height` image by asking `shade` for the pixel of
/// each position: `shade(w, h)` gives column `w` of scanline `h`, scanlines
/// counted from the bottom. The top scanline is rendered first and stands
/// first in the image.
pub fn render<F: Fn(usize, usize) -> Pixel>(width: usize, height: usize, shade: F) -> (image: Image)
    requires
        width * height <= usize::MAX,
        forall|w: usize, h: usize| w < width && h < height ==> call_requires(shade, (w, h)),
    ensures
        image@.width == width,
        image@.height == height,
        image@.pixels.len() == width * height,
        forall|w: usize, h: usize|
            w < width && h < height ==> call_ensures(
                shade,
                (w, h),
                #[trigger] image@.pixel_at(w as int, h as int),
            ),
{
    let mut pixels: Vec<Pixel> = Vec::new();
    let mut row: usize = 0;
    while row < height
        invariant
            row <= height,
            pixels@.len() == row * width,
            forall|w: usize, h: usize| w < width && h < height ==> call_requires(shade, (w, h)),
            forall|w: usize, h: usize|
                w < width && height - row <= h < height ==> call_ensures(
                    shade,
                    (w, h),
                    pixels@[#[trigger] raster_index(
                        w as int,
                        h as int,
                        width as int,
                        height as int,
                    )],
                ),
        decreases height - row,
    {
        let h: usize = height - 1 - row;
        let mut w: usize = 0;
        while w < width
            invariant
                w <= width,
                row < height,
                h == height - 1 - row,
                pixels@.len() == row * width + w,
                forall|w: usize, h: usize| w < width && h < height ==> call_requires(shade, (w, h)),
                forall|w0: usize, h0: usize|
                    w0 < width && (h < h0 < height || (h0 == h && w0 < w)) ==> call_ensures(
                        shade,
                        (w0, h0),
                        pixels@[#[trigger] raster_index(
                            w0 as int,
                            h0 as int,
                            width as int,
                            height as int,
                        )],
                    ),
            decreases width - w,
        {
            let pixel = shade(w, h);
            let ghost earlier = pixels@;
            pixels.push(pixel);
            proof {
                assert(raster_index(w as int, h as int, width as int, height as int)
                    == earlier.len());
                assert forall|w0: usize, h0: usize|
                    w0 < width && (h < h0 < height || (h0 == h && w0 < w + 1)) implies call_ensures(
                    shade,
                    (w0, h0),
                    pixels@[#[trigger] raster_index(
                        w0 as int,
                        h0 as int,
                        width as int,
                        height as int,
                    )],
                ) by {
                    if h0 != h || w0 != w {
                        lemma_raster_index_order(
                            w0 as int,
                            h0 as int,
                            w as int,
                            h as int,
                            width as int,
                            height as int,
                        );
                    }
                }
            }
            w += 1;
        }
        proof {
            assert(row * width + width == (row + 1) * width) by (nonlinear_arith);
        }
        row += 1;
    }
    proof {
        assert(height * width == width * height) by (nonlinear_arith);
    }
    Image::new(pixels, width, height)
}

} // verus!

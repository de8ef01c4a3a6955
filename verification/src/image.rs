//! Pixels and the rasters built from them.

use vstd::prelude::*;

verus! {

/// One quantized colour sample: red, green and blue, eight bits each.
#[derive(Clone, Copy, Debug, PartialEq, Eq, Structural)]
pub struct Pixel {
    pub r: u8,
    pub g: u8,
    pub b: u8,
}

impl Pixel {
    /// A pixel with the given channels.
    pub fn new(r: u8, g: u8, b: u8) -> (pixel: Pixel)
        ensures
            pixel == (Pixel { r, g, b }),
    {
        Pixel { r, g, b }
    }
}

/// The mathematical content of a raster: its pixels in row-major order,
/// top scanline first, and its dimensions.
pub struct Raster {
    pub pixels: Seq<Pixel>,
    pub width: nat,
    pub height: nat,
}

impl Raster {
    /// A raster holds exactly one pixel for each position of its grid.
    pub open spec fn wf(self) -> bool {
        self.pixels.len() == self.width * self.height
    }
}

/// A raster as plain data. Its fields are public, so nothing ties the number
/// of pixels to the dimensions; `Image` is the form that keeps them in step.
pub struct RTImage {
    pub pixels: Vec<Pixel>,
    pub width: usize,
    pub height: usize,
}

impl View for RTImage {
    type V = Raster;

    open spec fn view(&self) -> Raster {
        Raster { pixels: self.pixels@, width: self.width as nat, height: self.height as nat }
    }
}

/// A finished raster: `width * height` pixels in row-major order, top
/// scanline first.
pub struct Image {
    pixels: Vec<Pixel>,
    width: usize,
    height: usize,
}

impl View for Image {
    type V = Raster;

    closed spec fn view(&self) -> Raster {
        Raster { pixels: self.pixels@, width: self.width as nat, height: self.height as nat }
    }
}

impl Image {
    /// Every image holds one pixel for each position of its grid.
    #[verifier::type_invariant]
    pub open spec fn wf(&self) -> bool {
        self@.wf()
    }

    /// An image of the given dimensions over `pixels`, which must hold one
    /// pixel per grid position, in row-major order from the top scanline.
    pub fn new(pixels: Vec<Pixel>, width: usize, height: usize) -> (image: Image)
        requires
            pixels@.len() == width * height,
        ensures
            image@ == (Raster { pixels: pixels@, width: width as nat, height: height as nat }),
            image@.wf(),
    {
        Image { pixels, width, height }
    }

    /// The pixels in row-major order, top scanline first.
    pub fn get_pixels(&self) -> (pixels: &Vec<Pixel>)
        ensures
            pixels@ == self@.pixels,
            pixels@.len() == self@.width * self@.height,
    {
        proof {
            use_type_invariant(self);
        }
        &self.pixels
    }

    /// The number of pixels in a scanline.
    pub fn get_width(&self) -> (width: usize)
        ensures
            width == self@.width,
    {
        self.width
    }

    /// The number of scanlines.
    pub fn get_height(&self) -> (height: usize)
        ensures
            height == self@.height,
    {
        self.height
    }
}

} // verus!

//! Rasters of 8-bit RGB pixels: building one in scan order from a function
//! that shades each position, and writing it out as plain PPM text.

pub mod decimal;
pub mod image;
pub mod ppm;
pub mod render;

pub use image::{Image, Pixel, RTImage, Raster};
pub use render::render;

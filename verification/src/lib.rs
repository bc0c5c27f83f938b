//! Image-buffer core of a small ray tracer.
//!
//! The renderer's obligation at its output boundary is exact: a row-major
//! RGB byte buffer, three bytes per pixel, top row first.  This crate
//! verifies that layout: the buffer type, its pixel writes, and the driver
//! loop that fills a whole image from a per-pixel shading function.

mod driver;
mod image_buffer;

pub use driver::lemma_pixels_determine_bytes;
pub use driver::render_into;
pub use image_buffer::ImageDataRGB;

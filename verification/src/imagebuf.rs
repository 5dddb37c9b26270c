//! The trusted boundary to the `image` crate: an owned RGB pixel buffer, a
//! name for its contents, and the read-only accessors the segmenter uses.

use vstd::prelude::*;

verus! {

/// An owned 8-bit RGB pixel buffer, backed by the image crate's buffer type.
#[verifier::external_body]
pub struct RgbImage {
    buf: image::ImageBuffer<image::Rgb<u8>, Vec<u8>>,
}

/// The pixel grid of an image: entry `y` is row `y`, and entry `x` of a row
/// is the `(red, green, blue)` channel triple of the pixel at `(x, y)`.
pub uninterp spec fn pixel_rows(img: RgbImage) -> Seq<Seq<(u8, u8, u8)>>;

impl RgbImage {
    /// Relies on image::ImageBuffer::from_raw: a container of exactly
    /// `3 * width * height` bytes is accepted and read as rows of pixels in
    /// row-major order, each pixel three bytes, red then green then blue.
    #[verifier::external_body]
    pub fn from_raw(width: u32, height: u32, data: Vec<u8>) -> (img: RgbImage)
        requires
            data@.len() == 3 * width * height,
        ensures
            pixel_rows(img).len() == height as int,
            forall|y: int|
                0 <= y < height as int ==> (#[trigger] pixel_rows(img)[y]).len() == width as int,
            forall|y: int, x: int|
                0 <= y < height as int && 0 <= x < width as int ==> #[trigger] pixel_rows(img)[y][x]
                    == (
                data@[3 * (y * width as int + x)],
                data@[3 * (y * width as int + x) + 1],
                data@[3 * (y * width as int + x) + 2],
                ),
    {
        RgbImage { buf: image::ImageBuffer::from_raw(width, height, data).unwrap() }
    }

    /// Relies on image::ImageBuffer::dimensions: returns the buffer's width
    /// and height, the bounds within which get_pixel accepts coordinates.
    #[verifier::external_body]
    pub fn dims(&self) -> (d: (u32, u32))
        ensures
            pixel_rows(*self).len() == d.1 as int,
            forall|y: int|
                0 <= y < d.1 as int ==> (#[trigger] pixel_rows(*self)[y]).len() == d.0 as int,
    {
        self.buf.dimensions()
    }

    /// Relies on image::ImageBuffer::get_pixel: returns the pixel at column
    /// `x` of row `y`; it panics outside the bounds, which the precondition
    /// excludes.
    #[verifier::external_body]
    pub(crate) fn pixel_at(&self, x: u32, y: u32) -> (p: (u8, u8, u8))
        requires
            y < pixel_rows(*self).len(),
            x < pixel_rows(*self)[y as int].len(),
        ensures
            p == pixel_rows(*self)[y as int][x as int],
    {
        let px = self.buf.get_pixel(x, y);
        (px.0[0], px.0[1], px.0[2])
    }
}

} // verus!

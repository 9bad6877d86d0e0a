//! Raster images as plain values, and the resampling that upscales them.
use screenshots::image::imageops::{self, FilterType};
use screenshots::image::RgbaImage;
use vstd::prelude::*;

verus! {

/// A raster image: `width` by `height` pixels, row by row, four bytes
/// (red, green, blue, alpha) per pixel.
#[derive(Clone, Debug, PartialEq, Eq)]
pub struct PixelBuffer {
    pub width: u32,
    pub height: u32,
    pub pixels: Vec<u8>,
}

impl PixelBuffer {
    /// The bytes are exactly the pixels that the size calls for.
    pub open spec fn wf(&self) -> bool {
        self.pixels@.len() == 4 * self.width * self.height
    }
}

/// Relies on `image::imageops::resize` with `FilterType::Lanczos3` (and on
/// `ImageBuffer::from_raw` / `into_raw` to convert): the result has the
/// requested size, and at the source's own size it is a copy of the source.
/// The sizes are such that neither the result nor the resampler's working
/// buffer (four `f32` per pixel, source width by target height) overflows.
#[verifier::external_body]
pub(crate) fn resize_lanczos3(src: PixelBuffer, width: u32, height: u32) -> (r: PixelBuffer)
    requires
        src.wf(),
        src.width > 0,
        src.height > 0,
        width > 0,
        height > 0,
        16 * src.width * height <= isize::MAX,
        16 * width * height <= isize::MAX,
    ensures
        r.width == width,
        r.height == height,
        r.wf(),
        width == src.width && height == src.height ==> r.pixels@ == src.pixels@,
{
    let image = RgbaImage::from_raw(src.width, src.height, src.pixels)
        .expect("the byte count matches the size");
    let out = imageops::resize(&image, width, height, FilterType::Lanczos3);
    PixelBuffer { width: out.width(), height: out.height(), pixels: out.into_raw() }
}

} // verus!

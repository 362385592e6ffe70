use vstd::prelude::*;

use crate::error::AsciiError;
use crate::mapper::GrayGrid;
use image::imageops::FilterType;
use image::{DynamicImage, ImageError};

verus! {

#[verifier::external_type_specification]
#[verifier::external_body]
pub struct ExDynamicImage(DynamicImage);

#[verifier::external_type_specification]
#[verifier::external_body]
pub struct ExImageError(ImageError);

/// Width and height of the image that decoding `data` yields, or `None`
/// where the bytes do not decode.
pub uninterp spec fn decoded_size(data: Seq<u8>) -> Option<(u32, u32)>;

/// The pixels, row-major, of the image decoded from `data` once it is
/// resized to `width` by `height` by nearest-neighbour sampling and reduced
/// to 8-bit grayscale.
pub uninterp spec fn resized_gray(data: Seq<u8>, width: u32, height: u32) -> Seq<u8>;

/// Whether resizing an image `source_width` wide to `width` by `height`
/// stays within the sizes that a buffer can have: the resampling passes hold
/// four 32-bit floats per pixel.
pub open spec fn fits_in_memory(source_width: nat, width: nat, height: nat) -> bool {
    &&& source_width * height * 16 <= isize::MAX
    &&& width * height * 16 <= isize::MAX
}

/// A decoded image, together with the bytes it was decoded from.
pub struct Picture {
    width: u32,
    height: u32,
    image: DynamicImage,
    source: Ghost<Seq<u8>>,
}

impl Picture {
    /// The encoded bytes this picture was decoded from.
    pub closed spec fn source(&self) -> Seq<u8> {
        self.source@
    }

    /// Width in pixels.
    pub closed spec fn spec_width(&self) -> u32 {
        self.width
    }

    /// Height in pixels.
    pub closed spec fn spec_height(&self) -> u32 {
        self.height
    }

    /// The stored size is that of the image decoded from the source bytes.
    pub open spec fn wf(&self) -> bool {
        decoded_size(self.source()) == Some((self.spec_width(), self.spec_height()))
    }

    /// The picture's width and height, in pixels.
    pub fn dimensions(&self) -> (r: (u32, u32))
        ensures
            r == (self.spec_width(), self.spec_height()),
    {
        (self.width, self.height)
    }
}

/// Relies on `image::load_from_memory`, which guesses the format from the
/// bytes and decodes them, so that success and the decoded image depend on
/// the bytes alone; the size is read with `DynamicImage::width` and
/// `DynamicImage::height`.
#[verifier::external_body]
fn load_picture(data: &[u8]) -> (r: Result<Picture, ImageError>)
    ensures
        match r {
            Ok(p) => decoded_size(data@) == Some((p.width, p.height)) && p.source@ == data@,
            Err(_) => decoded_size(data@) is None,
        },
{
    match image::load_from_memory(data) {
        Ok(img) => Ok(Picture { width: img.width(), height: img.height(), image: img, source: Ghost(data@) }),
        Err(e) => Err(e),
    }
}

/// Relies on `DynamicImage::resize_exact` with `FilterType::Nearest`, which
/// yields an image of exactly `width` by `height`, and on
/// `DynamicImage::to_luma8`, whose buffer holds one byte per pixel, row-major
/// (read back with `ImageBuffer::into_raw`). The resampling first builds a
/// buffer of four `f32` per pixel, the source width by `height`, then one of
/// `width` by `height`: `requires` keeps both under the size at which
/// allocating them panics.
#[verifier::external_body]
pub(crate) fn resize_to_gray(p: &Picture, width: u32, height: u32) -> (r: GrayGrid)
    requires
        p.wf(),
        fits_in_memory(p.spec_width() as nat, width as nat, height as nat),
    ensures
        r.width == width,
        r.height == height,
        r.pixels@ == resized_gray(p.source(), width, height),
        r.pixels@.len() == width as int * height as int,
{
    let gray = p.image.resize_exact(width, height, FilterType::Nearest).to_luma8();
    GrayGrid { width: gray.width(), height: gray.height(), pixels: gray.into_raw() }
}

/// Decodes an image from its encoded bytes (PNG, JPEG, BMP or GIF); the
/// format is recognised from the bytes themselves.
pub fn decode_image(data: &[u8]) -> (r: Result<Picture, AsciiError>)
    ensures
        r is Ok <==> decoded_size(data@) is Some,
        match r {
            Ok(p) => p.wf() && p.source() == data@,
            Err(e) => e == AsciiError::Decode,
        },
{
    match load_picture(data) {
        Ok(p) => Ok(p),
        Err(_) => Err(AsciiError::Decode),
    }
}

} // verus!

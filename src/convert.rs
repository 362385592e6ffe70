use vstd::prelude::*;

use crate::error::AsciiError;
use crate::mapper::{art_text, law_line_shape, law_ramp_coverage, AsciiArtGenerator, GrayGrid};
use crate::picture::{decode_image, decoded_size, fits_in_memory, resize_to_gray, resized_gray, Picture};

verus! {

/// The characters that stand for intensities, from black to white.
pub open spec fn default_ramp() -> Seq<char> {
    seq!['@', '%', '#', '*', '+', '=', '-', ':', '.', ' ']
}

/// Height of an image `source_width` by `source_height` scaled to `width`
/// with its aspect ratio kept, rounded down; an image without width scales
/// to no rows.
pub open spec fn scaled_height(width: nat, source_width: nat, source_height: nat) -> nat {
    if source_width == 0 {
        0
    } else {
        width * source_height / source_width
    }
}

/// The grayscale grid that scaling the image decoded from `data` to `width`
/// yields, or why there is none.
pub open spec fn scaled_grid(data: Seq<u8>, width: u32) -> Result<(nat, Seq<u8>), AsciiError> {
    match decoded_size(data) {
        None => Err(AsciiError::Decode),
        Some((source_width, source_height)) => {
            let height = scaled_height(width as nat, source_width as nat, source_height as nat);
            if height > u32::MAX || !fits_in_memory(source_width as nat, width as nat, height) {
                Err(AsciiError::TooLarge)
            } else if height == 0 {
                Ok((height, Seq::empty()))
            } else {
                Ok((height, resized_gray(data, width, height as u32)))
            }
        },
    }
}

/// The ASCII art of the image encoded in `data` at `width` characters per
/// line, drawn with `ramp`, or why there is none.
pub open spec fn ascii_art_of(ramp: Seq<char>, data: Seq<u8>, width: u32) -> Result<Seq<char>, AsciiError> {
    match scaled_grid(data, width) {
        Ok((height, pixels)) => Ok(art_text(ramp, pixels, width as nat, height)),
        Err(e) => Err(e),
    }
}

/// The text of `r` is `expected`, or both are the same error.
pub open spec fn outcome_matches(r: Result<String, AsciiError>, expected: Result<Seq<char>, AsciiError>) -> bool {
    match (r, expected) {
        (Ok(s), Ok(t)) => s@ == t,
        (Err(e), Err(f)) => e == f,
        _ => false,
    }
}

/// Two conversions of the same bytes at the same width give the same text,
/// or the same error.
pub proof fn law_determinism(data: Seq<u8>, width: u32, r1: Result<String, AsciiError>, r2: Result<String, AsciiError>)
    requires
        outcome_matches(r1, ascii_art_of(default_ramp(), data, width)),
        outcome_matches(r2, ascii_art_of(default_ramp(), data, width)),
    ensures
        match (r1, r2) {
            (Ok(a), Ok(b)) => a@ == b@,
            (Err(e), Err(f)) => e == f,
            _ => false,
        },
{
}

/// The default ramp holds no line break.
pub proof fn lemma_default_ramp_has_no_line_break()
    ensures
        !default_ramp().contains('\n'),
{
    let ramp = default_ramp();
    assert forall|i: int| 0 <= i < ramp.len() implies ramp[i] != '\n' by {}
}

/// A successful conversion at a positive `width` has exactly as many lines as the
/// scaled height, `width * source_height / source_width` rounded down, and
/// each line has exactly `width` characters followed by a line break.
pub proof fn law_output_dimensions(data: Seq<u8>, width: u32)
    requires
        width >= 1,
        ascii_art_of(default_ramp(), data, width) is Ok,
    ensures
        ({
            let (source_width, source_height) = decoded_size(data)->Some_0;
            let rows = scaled_height(width as nat, source_width as nat, source_height as nat);
            let text = ascii_art_of(default_ramp(), data, width)->Ok_0;
            &&& text.len() == rows * (width + 1)
            &&& forall|k: int|
                0 <= k < text.len() ==> (#[trigger] text[k] == '\n' <==> k % (width + 1) == width)
        }),
{
    let (height, pixels) = scaled_grid(data, width)->Ok_0;
    lemma_default_ramp_has_no_line_break();
    law_line_shape(default_ramp(), pixels, width as nat, height);
}

/// Every character of a successful conversion is a line break or one of
/// the characters `@%#*+=-:. `.
pub proof fn law_output_alphabet(data: Seq<u8>, width: u32)
    requires
        ascii_art_of(default_ramp(), data, width) is Ok,
    ensures
        ({
            let text = ascii_art_of(default_ramp(), data, width)->Ok_0;
            forall|k: int|
                0 <= k < text.len() ==> (#[trigger] text[k] == '\n' || default_ramp().contains(
                    text[k],
                ))
        }),
{
    let (height, pixels) = scaled_grid(data, width)->Ok_0;
    law_ramp_coverage(default_ramp(), pixels, width as nat, height);
}

impl AsciiArtGenerator {
    /// Scales the picture to `new_width` columns, keeping its aspect ratio,
    /// and reduces it to grayscale.
    pub fn scale_image(&self, image: &Picture, new_width: u32) -> (r: Result<GrayGrid, AsciiError>)
        requires
            image.wf(),
        ensures
            match (r, scaled_grid(image.source(), new_width)) {
                (Ok(g), Ok((height, pixels))) => g.wf() && g.width == new_width && g.height == height
                    && g.pixels@ == pixels,
                (Err(e), Err(f)) => e == f,
                _ => false,
            },
    {
        let (width, height) = image.dimensions();
        if width == 0 {
            assert(fits_in_memory(0, new_width as nat, 0)) by (nonlinear_arith);
            return Ok(GrayGrid { width: new_width, height: 0, pixels: Vec::new() });
        }
        assert((new_width as int) * (height as int) <= u32::MAX as int * u32::MAX as int) by (nonlinear_arith)
            requires
                new_width <= u32::MAX,
                height <= u32::MAX,
        ;
        let new_height: u64 = new_width as u64 * height as u64 / width as u64;
        if new_height > u32::MAX as u64 {
            return Err(AsciiError::TooLarge);
        }
        assert((width as int) * (new_height as int) * 16 <= u32::MAX as int * u32::MAX as int * 16)
            by (nonlinear_arith)
            requires
                width <= u32::MAX,
                new_height <= u32::MAX,
        ;
        assert((new_width as int) * (new_height as int) * 16 <= u32::MAX as int * u32::MAX as int * 16)
            by (nonlinear_arith)
            requires
                new_width <= u32::MAX,
                new_height <= u32::MAX,
        ;
        let limit: u128 = isize::MAX as u128;
        if width as u128 * new_height as u128 * 16 > limit || new_width as u128 * new_height as u128 * 16 > limit {
            return Err(AsciiError::TooLarge);
        }
        if new_height == 0 {
            assert((new_width as int) * 0 == 0);
            return Ok(GrayGrid { width: new_width, height: 0, pixels: Vec::new() });
        }
        Ok(resize_to_gray(image, new_width, new_height as u32))
    }

    /// The ASCII art of the image encoded in `data`, `width` characters per line.
    pub fn generate_ascii_art(&self, data: &[u8], width: u32) -> (r: Result<String, AsciiError>)
        requires
            self.wf(),
        ensures
            outcome_matches(r, ascii_art_of(self.ramp(), data@, width)),
    {
        let img = match decode_image(data) {
            Ok(p) => p,
            Err(e) => return Err(e),
        };
        let scaled_image = match self.scale_image(&img, width) {
            Ok(g) => g,
            Err(e) => return Err(e),
        };
        Ok(self.map_pixels_to_ascii(&scaled_image))
    }
}

/// The ASCII art of the image encoded in `data`, `width` characters per
/// line, drawn with the characters `@%#*+=-:. ` from black to white.
pub fn convert_img_to_ascii(data: &[u8], width: u32) -> (r: Result<String, AsciiError>)
    ensures
        outcome_matches(r, ascii_art_of(default_ramp(), data@, width)),
{
    proof {
        reveal_strlit("@%#*+=-:. ");
    }
    let ascii = AsciiArtGenerator::new("@%#*+=-:. ");
    assert(ascii.ramp() =~= default_ramp());
    ascii.generate_ascii_art(data, width)
}

} // verus!

use vstd::prelude::*;

use crate::text::push_char;
use vstd::arithmetic::div_mod::lemma_fundamental_div_mod_converse;

verus! {

/// A grayscale pixel grid: `height` rows of `width` intensities, row-major.
pub struct GrayGrid {
    pub width: u32,
    pub height: u32,
    pub pixels: Vec<u8>,
}

impl GrayGrid {
    /// There is exactly one intensity per pixel.
    pub open spec fn wf(&self) -> bool {
        self.pixels@.len() == self.width as int * self.height as int
    }
}

/// Position in a ramp of `len` characters that an intensity selects.
pub open spec fn ramp_index(intensity: u8, len: nat) -> int {
    (intensity as int * len as int) / 256
}

/// The character that the pixel at column `x` of row `y` becomes.
pub open spec fn pixel_char(ramp: Seq<char>, pixels: Seq<u8>, width: nat, x: int, y: int) -> char {
    ramp[ramp_index(pixels[y * width + x], ramp.len())]
}

/// The first `n` characters of row `y`.
pub open spec fn row_prefix(ramp: Seq<char>, pixels: Seq<u8>, width: nat, y: int, n: nat) -> Seq<char> {
    Seq::new(n, |x: int| pixel_char(ramp, pixels, width, x, y))
}

/// Row `y` as text: one character per pixel, then a line break.
pub open spec fn row_text(ramp: Seq<char>, pixels: Seq<u8>, width: nat, y: int) -> Seq<char> {
    row_prefix(ramp, pixels, width, y, width).push('\n')
}

/// The first `rows` rows of a grid as text, top to bottom; a grid without
/// columns gives no text at all.
pub open spec fn art_text(ramp: Seq<char>, pixels: Seq<u8>, width: nat, rows: nat) -> Seq<char>
    decreases rows,
{
    if rows == 0 || width == 0 {
        Seq::empty()
    } else {
        art_text(ramp, pixels, width, (rows - 1) as nat) + row_text(ramp, pixels, width, rows - 1)
    }
}

/// Where each character of the text comes from: `rows` lines of `width`
/// characters, each followed by a line break, the character at column `x` of
/// line `y` being the one that pixel `(x, y)` becomes.
pub proof fn lemma_art_layout(ramp: Seq<char>, pixels: Seq<u8>, width: nat, rows: nat)
    requires
        width >= 1,
    ensures
        art_text(ramp, pixels, width, rows).len() == (rows as int) * (width as int + 1),
        forall|k: int|
            0 <= k < (rows as int) * (width as int + 1) ==> #[trigger] art_text(ramp, pixels, width, rows)[k] == if k
                % (width as int + 1) == width as int {
                '\n'
            } else {
                pixel_char(ramp, pixels, width, k % (width as int + 1), k / (width as int + 1))
            },
    decreases rows,
{
    if rows > 0 {
        let r = (rows - 1) as nat;
        lemma_art_layout(ramp, pixels, width, r);
        assert((r as int) * (width as int + 1) + (width as int + 1) == (rows as int) * (width as int + 1)) by (nonlinear_arith)
            requires
                r + 1 == rows,
        ;
        let text = art_text(ramp, pixels, width, rows);
        assert(text == art_text(ramp, pixels, width, r) + row_text(ramp, pixels, width, r as int));
        assert(row_text(ramp, pixels, width, r as int).len() == width + 1);
        assert(text.len() == (rows as int) * (width as int + 1));
        assert forall|k: int| 0 <= k < (rows as int) * (width as int + 1) implies #[trigger] text[k] == if k % (
        width as int + 1) == width as int {
            '\n'
        } else {
            pixel_char(ramp, pixels, width, k % (width as int + 1), k / (width as int + 1))
        } by {
            if k >= (r as int) * (width as int + 1) {
                let j = k - (r as int) * (width as int + 1);
                lemma_fundamental_div_mod_converse(k, width as int + 1, r as int, j);
                assert(text[k] == row_text(ramp, pixels, width, r as int)[j]);
            } else {
                assert(text[k] == art_text(ramp, pixels, width, r)[k]);
            }
        }
    } else {
        assert((rows as int) * (width as int + 1) == 0) by (nonlinear_arith)
            requires
                rows == 0,
        ;
    }
}

/// The text has exactly `rows` lines, each of exactly `width` characters:
/// its length is `(rows as int) * (width as int + 1)` and a line break stands exactly at the
/// positions that end a line, provided the ramp holds no line break.
pub proof fn law_line_shape(ramp: Seq<char>, pixels: Seq<u8>, width: nat, rows: nat)
    requires
        width >= 1,
        ramp.len() >= 1,
        !ramp.contains('\n'),
    ensures
        art_text(ramp, pixels, width, rows).len() == (rows as int) * (width as int + 1),
        forall|k: int|
            0 <= k < (rows as int) * (width as int + 1) ==> (#[trigger] art_text(ramp, pixels, width, rows)[k]
                == '\n' <==> k % (width as int + 1) == width as int),
{
    lemma_art_layout(ramp, pixels, width, rows);
    let text = art_text(ramp, pixels, width, rows);
    assert forall|k: int| 0 <= k < (rows as int) * (width as int + 1) implies (#[trigger] text[k] == '\n' <==> k
        % (width as int + 1) == width as int) by {
        if k % (width as int + 1) != width as int {
            let i = ramp_index(pixels[(k / (width as int + 1)) * (width as int) + k % (width as int + 1)], ramp.len());
            lemma_ramp_index_in_range(pixels[(k / (width as int + 1)) * (width as int) + k % (width as int + 1)], ramp.len());
            if ramp[i] == '\n' {
                assert(ramp.contains('\n'));
            }
        }
    }
}

/// Every character of the text is a line break or a character of the ramp.
pub proof fn law_ramp_coverage(ramp: Seq<char>, pixels: Seq<u8>, width: nat, rows: nat)
    requires
        ramp.len() >= 1,
    ensures
        forall|k: int|
            0 <= k < art_text(ramp, pixels, width, rows).len() ==> {
                let c = #[trigger] art_text(ramp, pixels, width, rows)[k];
                c == '\n' || ramp.contains(c)
            },
{
    if width >= 1 {
        lemma_art_layout(ramp, pixels, width, rows);
        let text = art_text(ramp, pixels, width, rows);
        assert forall|k: int| 0 <= k < text.len() implies #[trigger] text[k] == '\n' || ramp.contains(
            text[k],
        ) by {
            if k % (width as int + 1) != width as int {
                let p = pixels[(k / (width as int + 1)) * (width as int) + k % (width as int + 1)];
                lemma_ramp_index_in_range(p, ramp.len());
                assert(ramp[ramp_index(p, ramp.len())] == text[k]);
            }
        }
    }
}

/// A ramp index lies inside a non-empty ramp.
pub proof fn lemma_ramp_index_in_range(intensity: u8, len: nat)
    ensures
        len >= 1 ==> 0 <= ramp_index(intensity, len) < len,
{
    if len >= 1 {
        assert(0 <= (intensity as int * len as int) / 256 < (len as int)) by (nonlinear_arith)
            requires
                0 <= intensity <= 255,
                len >= 1,
        ;
    }
}

/// The mapping from intensity to ramp index never decreases.
pub proof fn law_monotonic_mapping(i1: u8, i2: u8, len: nat)
    requires
        i1 <= i2,
    ensures
        ramp_index(i1, len) <= ramp_index(i2, len),
{
    assert((i1 as int * len as int) / 256 <= (i2 as int * len as int) / 256) by (nonlinear_arith)
        requires
            i1 <= i2,
    ;
}

/// Black selects the first character of a ramp of at most 256 characters,
/// and white the last.
pub proof fn law_boundary(len: nat)
    requires
        1 <= len <= 256,
    ensures
        ramp_index(0, len) == 0,
        ramp_index(255, len) == len - 1,
{
    assert((255 * len as int) / 256 == len - 1) by (nonlinear_arith)
        requires
            1 <= len <= 256,
    ;
}

/// Maps grayscale pixels to the characters of a ramp: intensity 0 to its
/// first character, higher intensities to later ones.
pub struct AsciiArtGenerator {
    ascii_chars: Vec<char>,
}

impl AsciiArtGenerator {
    /// The characters that intensities map to, in order.
    pub closed spec fn ramp(&self) -> Seq<char> {
        self.ascii_chars@
    }

    /// The ramp is not empty, and its length fits the index arithmetic.
    pub open spec fn wf(&self) -> bool {
        1 <= self.ramp().len() <= u32::MAX
    }

    /// A generator whose ramp is the characters of `ascii_chars`, in order.
    pub fn new(ascii_chars: &str) -> (r: Self)
        requires
            1 <= ascii_chars@.len() <= u32::MAX,
        ensures
            r.wf(),
            r.ramp() == ascii_chars@,
    {
        let mut chars: Vec<char> = Vec::new();
        for c in it: ascii_chars.chars()
            invariant
                chars@ == it.seq().take(it.index() as int),
        {
            chars.push(c);
        }
        AsciiArtGenerator { ascii_chars: chars }
    }

    /// The ramp character for one intensity.
    fn char_for(&self, intensity: u8) -> (c: char)
        requires
            self.wf(),
        ensures
            0 <= ramp_index(intensity, self.ramp().len()) < self.ramp().len(),
            c == self.ramp()[ramp_index(intensity, self.ramp().len())],
    {
        let len: u64 = self.ascii_chars.len() as u64;
        proof {
            lemma_ramp_index_in_range(intensity, len as nat);
        }
        assert(intensity as u64 * len <= 255 * len) by (nonlinear_arith);
        let index: u64 = intensity as u64 * len / 256;
        self.ascii_chars[index as usize]
    }

    /// The grid as text: each row top to bottom, each pixel left to right
    /// becoming one ramp character, and a line break after every row.
    pub fn map_pixels_to_ascii(&self, image: &GrayGrid) -> (r: String)
        requires
            self.wf(),
            image.wf(),
        ensures
            r@ == art_text(self.ramp(), image.pixels@, image.width as nat, image.height as nat),
    {
        let width: u32 = image.width;
        let height: u32 = image.height;
        let mut ascii_art = String::new();
        if width == 0 {
            return ascii_art;
        }
        for y in 0..height
            invariant
                self.wf(),
                image.wf(),
                width == image.width,
                height == image.height,
                width >= 1,
                ascii_art@ == art_text(self.ramp(), image.pixels@, width as nat, y as nat),
        {
            let ghost done = ascii_art@;
            for x in 0..width
                invariant
                    self.wf(),
                    image.wf(),
                    width == image.width,
                    height == image.height,
                    width >= 1,
                    y < height,
                    ascii_art@ == done + row_prefix(self.ramp(), image.pixels@, width as nat, y as int, x as nat),
            {
                assert((y as int) * (width as int) + (x as int) < (height as int) * (width as int)) by (nonlinear_arith)
                    requires
                        y < height,
                        x < width,
                ;
                assert((y as int) * (width as int) <= (y as int) * (width as int) + (x as int));
                assert(image.pixels@.len() == image.pixels.len());
                let row_start: usize = y as usize * width as usize;
                let i: usize = row_start + x as usize;
                let c = self.char_for(image.pixels[i]);
                push_char(&mut ascii_art, c);
                assert(row_prefix(self.ramp(), image.pixels@, width as nat, y as int, (x + 1) as nat)
                    =~= row_prefix(self.ramp(), image.pixels@, width as nat, y as int, x as nat).push(c));
            }
            push_char(&mut ascii_art, '\n');
        }
        ascii_art
    }
}

} // verus!

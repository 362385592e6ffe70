use vstd::prelude::*;

verus! {

/// Why a conversion produced no text.
#[derive(Debug, Clone, Copy, PartialEq, Eq, Structural)]
pub enum AsciiError {
    /// The bytes are not an image in a supported format, or could not be read.
    Decode,
    /// The scaled image would not fit in memory.
    TooLarge,
}

} // verus!

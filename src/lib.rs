//! Turns raster images into ASCII art: the image is scaled to a requested
//! width, reduced to grayscale, and each pixel becomes one character of a
//! fixed ramp.

mod text;
pub mod error;
pub mod mapper;
pub mod picture;
pub mod convert;

use image::{DynamicImage, GrayImage, ImageOutputFormat, Luma, Rgb, RgbImage};
use pictoascii::convert::convert_img_to_ascii;
use pictoascii::error::AsciiError;
use pictoascii::mapper::{AsciiArtGenerator, GrayGrid};
use pictoascii::picture::decode_image;
use std::io::Cursor;

fn encode(img: DynamicImage, format: ImageOutputFormat) -> Vec<u8> {
    let mut buf: Vec<u8> = Vec::new();
    img.write_to(&mut Cursor::new(&mut buf), format).unwrap();
    buf
}

fn solid_png(width: u32, height: u32, intensity: u8) -> Vec<u8> {
    let img = GrayImage::from_pixel(width, height, Luma([intensity]));
    encode(DynamicImage::ImageLuma8(img), ImageOutputFormat::Png)
}

fn gradient_png(width: u32, height: u32) -> Vec<u8> {
    let img = GrayImage::from_fn(width, height, |x, y| Luma([((x * 7 + y * 13) % 256) as u8]));
    encode(DynamicImage::ImageLuma8(img), ImageOutputFormat::Png)
}

const RAMP: &str = "@%#*+=-:. ";

#[test]
fn solid_black_image_gives_at_signs() {
    let art = convert_img_to_ascii(&solid_png(10, 10, 0), 10).unwrap();
    assert_eq!(art, "@@@@@@@@@@\n".repeat(10));
}

#[test]
fn solid_white_image_gives_spaces() {
    let art = convert_img_to_ascii(&solid_png(10, 10, 255), 10).unwrap();
    assert_eq!(art, "          \n".repeat(10));
}

#[test]
fn aspect_ratio_is_kept() {
    let art = convert_img_to_ascii(&solid_png(200, 100, 0), 50).unwrap();
    let lines: Vec<&str> = art.split_terminator('\n').collect();
    assert_eq!(lines.len(), 25);
    assert!(lines.iter().all(|l| l.chars().count() == 50));
    assert!(art.ends_with('\n'));
}

#[test]
fn scaled_height_rounds_down() {
    let art = convert_img_to_ascii(&gradient_png(37, 23), 13).unwrap();
    let lines: Vec<&str> = art.split_terminator('\n').collect();
    assert_eq!(lines.len(), 8);
    assert!(lines.iter().all(|l| l.chars().count() == 13));
    assert_eq!(art.len(), 8 * 14);
}

#[test]
fn empty_bytes_give_decode_error() {
    assert_eq!(convert_img_to_ascii(&[], 10), Err(AsciiError::Decode));
}

#[test]
fn unrecognised_bytes_give_decode_error() {
    let data = b"this is not an image at all".to_vec();
    assert_eq!(convert_img_to_ascii(&data, 10), Err(AsciiError::Decode));
    assert!(decode_image(&data).is_err());
}

#[test]
fn truncated_png_gives_decode_error() {
    let data = solid_png(10, 10, 0);
    assert_eq!(convert_img_to_ascii(&data[..20], 10), Err(AsciiError::Decode));
}

#[test]
fn conversion_is_deterministic() {
    let data = gradient_png(64, 48);
    let a = convert_img_to_ascii(&data, 20).unwrap();
    let b = convert_img_to_ascii(&data, 20).unwrap();
    assert_eq!(a, b);
}

#[test]
fn output_uses_only_ramp_characters() {
    let art = convert_img_to_ascii(&gradient_png(90, 60), 45).unwrap();
    assert!(!art.is_empty());
    assert!(art.chars().all(|c| c == '\n' || RAMP.contains(c)));
}

#[test]
fn mapping_is_monotonic_in_intensity() {
    let img = GrayImage::from_fn(256, 1, |x, _| Luma([x as u8]));
    let data = encode(DynamicImage::ImageLuma8(img), ImageOutputFormat::Png);
    let art = convert_img_to_ascii(&data, 256).unwrap();
    let ramp: Vec<char> = RAMP.chars().collect();
    let indices: Vec<usize> = art
        .trim_end_matches('\n')
        .chars()
        .map(|c| ramp.iter().position(|r| *r == c).unwrap())
        .collect();
    assert_eq!(indices.len(), 256);
    assert!(indices.windows(2).all(|w| w[0] <= w[1]));
    for (x, i) in indices.iter().enumerate() {
        assert_eq!(*i, x * 10 / 256);
    }
}

#[test]
fn boundary_intensities_map_to_ramp_ends() {
    let generator = AsciiArtGenerator::new(RAMP);
    let grid = GrayGrid { width: 2, height: 1, pixels: vec![0, 255] };
    assert_eq!(generator.map_pixels_to_ascii(&grid), "@ \n");
}

#[test]
fn intensity_index_formula() {
    let generator = AsciiArtGenerator::new(RAMP);
    let grid = GrayGrid { width: 4, height: 2, pixels: vec![25, 26, 128, 230, 77, 103, 179, 204] };
    assert_eq!(generator.map_pixels_to_ascii(&grid), "@%=.\n*+-:\n");
}

#[test]
fn custom_ramp_is_used() {
    let generator = AsciiArtGenerator::new("ab");
    let grid = GrayGrid { width: 2, height: 2, pixels: vec![0, 127, 128, 255] };
    assert_eq!(generator.map_pixels_to_ascii(&grid), "aa\nbb\n");
}

#[test]
fn empty_grid_gives_empty_text() {
    let generator = AsciiArtGenerator::new(RAMP);
    let grid = GrayGrid { width: 0, height: 0, pixels: vec![] };
    assert_eq!(generator.map_pixels_to_ascii(&grid), "");
}

#[test]
fn zero_width_gives_empty_text() {
    assert_eq!(convert_img_to_ascii(&solid_png(10, 10, 0), 0), Ok(String::new()));
}

#[test]
fn color_image_is_reduced_by_luma() {
    let img = RgbImage::from_fn(2, 1, |x, _| if x == 0 { Rgb([255, 0, 0]) } else { Rgb([0, 255, 0]) });
    let data = encode(DynamicImage::ImageRgb8(img), ImageOutputFormat::Png);
    assert_eq!(convert_img_to_ascii(&data, 2).unwrap(), "#:\n");
}

#[test]
fn bmp_input_is_decoded() {
    let img = GrayImage::from_pixel(4, 4, Luma([255]));
    let data = encode(DynamicImage::ImageLuma8(img).into_rgb8().into(), ImageOutputFormat::Bmp);
    assert_eq!(convert_img_to_ascii(&data, 4).unwrap(), "    \n".repeat(4));
}

#[test]
fn downscaling_picks_source_pixels() {
    let img = GrayImage::from_fn(4, 2, |x, _| Luma([if x < 2 { 0 } else { 255 }]));
    let data = encode(DynamicImage::ImageLuma8(img), ImageOutputFormat::Png);
    assert_eq!(convert_img_to_ascii(&data, 2).unwrap(), "@ \n");
}

#[test]
fn decoded_picture_reports_its_size() {
    let picture = decode_image(&solid_png(7, 3, 0)).unwrap();
    assert_eq!(picture.dimensions(), (7, 3));
}

#[test]
fn scale_image_gives_requested_size() {
    let generator = AsciiArtGenerator::new(RAMP);
    let picture = decode_image(&solid_png(30, 20, 255)).unwrap();
    let grid = generator.scale_image(&picture, 9).unwrap();
    assert_eq!((grid.width, grid.height), (9, 6));
    assert_eq!(grid.pixels, vec![255u8; 54]);
}

#[test]
fn huge_width_is_too_large() {
    assert_eq!(convert_img_to_ascii(&solid_png(1, 1, 0), u32::MAX), Err(AsciiError::TooLarge));
}

#[test]
fn generator_gives_same_text_as_conversion() {
    let data = gradient_png(40, 30);
    let generator = AsciiArtGenerator::new(RAMP);
    assert_eq!(generator.generate_ascii_art(&data, 16), convert_img_to_ascii(&data, 16));
}

#[test]
fn grid_without_columns_gives_empty_text() {
    let generator = AsciiArtGenerator::new(RAMP);
    let grid = GrayGrid { width: 0, height: 3, pixels: vec![] };
    assert_eq!(generator.map_pixels_to_ascii(&grid), "");
}

use image::ImageEncoder;
use pixel_filters::{apply_filter, FilterError};

fn png_bytes(w: u32, h: u32, f: impl Fn(u32, u32) -> [u8; 4]) -> Vec<u8> {
    let img = image::RgbaImage::from_fn(w, h, |x, y| image::Rgba(f(x, y)));
    let mut out = Vec::new();
    let encoder = image::codecs::png::PngEncoder::new(&mut out);
    encoder
        .write_image(img.as_raw(), w, h, image::ColorType::Rgba8)
        .unwrap();
    out
}

fn decode_rgba(bytes: &[u8]) -> image::RgbaImage {
    image::load_from_memory(bytes).unwrap().to_rgba8()
}

#[test]
fn undecodable_input_is_a_decode_error() {
    assert_eq!(apply_filter(&[], "invert"), Err(FilterError::Decode));
    assert_eq!(
        apply_filter(&[0x13, 0x37, 0xca, 0xfe, 0x00], "invert"),
        Err(FilterError::Decode)
    );
}

#[test]
fn unknown_name_round_trips_the_image() {
    let bytes = png_bytes(3, 2, |x, y| [x as u8 * 50, y as u8 * 90, 7, 255]);
    let out = apply_filter(&bytes, "not-a-filter").unwrap();
    let img = decode_rgba(&out);
    assert_eq!(img.dimensions(), (3, 2));
    for y in 0..2 {
        for x in 0..3 {
            assert_eq!(img.get_pixel(x, y).0, [x as u8 * 50, y as u8 * 90, 7, 255]);
        }
    }
}

#[test]
fn invert_through_the_pipeline() {
    let bytes = png_bytes(2, 2, |x, y| [10 + x as u8, 20 + y as u8, 200, 137]);
    let out = apply_filter(&bytes, "invert").unwrap();
    let img = decode_rgba(&out);
    assert_eq!(img.dimensions(), (2, 2));
    for y in 0..2 {
        for x in 0..2 {
            assert_eq!(
                img.get_pixel(x, y).0,
                [245 - x as u8, 235 - y as u8, 55, 137]
            );
        }
    }
}

#[test]
fn sepia_through_the_pipeline() {
    let bytes = png_bytes(1, 1, |_, _| [200, 150, 100, 255]);
    let out = apply_filter(&bytes, "sepia").unwrap();
    let img = decode_rgba(&out);
    assert_eq!(img.get_pixel(0, 0).0, [212, 189, 147, 255]);
}

#[test]
fn grayscale_through_the_pipeline() {
    let bytes = png_bytes(1, 1, |_, _| [50, 100, 200, 0]);
    let out = apply_filter(&bytes, "grayscale").unwrap();
    let img = decode_rgba(&out);
    assert_eq!(img.get_pixel(0, 0).0, [96, 96, 96, 255]);
}

#[test]
fn sharpen_through_the_pipeline() {
    let bytes = png_bytes(4, 4, |_, _| [255, 255, 255, 255]);
    let out = apply_filter(&bytes, "sharpen").unwrap();
    let img = decode_rgba(&out);
    for y in 0..4 {
        for x in 0..4 {
            let expected = if x == 0 || x == 3 || y == 0 || y == 3 {
                [0, 0, 0, 0]
            } else {
                [255, 255, 255, 255]
            };
            assert_eq!(img.get_pixel(x, y).0, expected);
        }
    }
}

#[test]
fn jpeg_input_is_auto_detected() {
    let img = image::RgbImage::from_pixel(8, 8, image::Rgb([128, 128, 128]));
    let mut bytes = std::io::Cursor::new(Vec::new());
    image::DynamicImage::ImageRgb8(img)
        .write_to(&mut bytes, image::ImageOutputFormat::Jpeg(100))
        .unwrap();
    let jpeg = bytes.into_inner();
    let direct = decode_rgba(&jpeg);
    let out = apply_filter(&jpeg, "no-such-filter").unwrap();
    let through = decode_rgba(&out);
    assert_eq!(through.dimensions(), (8, 8));
    assert_eq!(direct, through);
}

#[test]
fn posterize_through_the_pipeline() {
    let bytes = png_bytes(2, 1, |x, _| if x == 0 { [86, 170, 254, 9] } else { [84, 255, 0, 255] });
    let out = apply_filter(&bytes, "posterize").unwrap();
    let img = decode_rgba(&out);
    assert_eq!(img.get_pixel(0, 0).0, [85, 170, 170, 9]);
    assert_eq!(img.get_pixel(1, 0).0, [0, 255, 0, 255]);
}

#[test]
fn pixelate_through_the_pipeline() {
    let bytes = png_bytes(20, 10, |x, y| [x as u8 * 10, y as u8 * 20, 0, 255]);
    let out = apply_filter(&bytes, "pixelate").unwrap();
    let img = decode_rgba(&out);
    assert_eq!(img.dimensions(), (20, 10));
    // the top-left block copies source pixel (0, 0), the right block (10, 0)
    for y in 0..10 {
        for x in 0..10 {
            assert_eq!(img.get_pixel(x, y).0, [0, 0, 0, 255]);
            assert_eq!(img.get_pixel(x + 10, y).0, [100, 0, 0, 255]);
        }
    }
}

#[test]
fn blur_through_the_pipeline_keeps_dimensions() {
    let bytes = png_bytes(9, 5, |x, _| if x == 4 { [255, 0, 0, 255] } else { [0, 0, 0, 255] });
    let out = apply_filter(&bytes, "blur").unwrap();
    let img = decode_rgba(&out);
    assert_eq!(img.dimensions(), (9, 5));
    // the red stripe bleeds outward
    assert!(img.get_pixel(0, 0).0[0] > 0);
    assert!(img.get_pixel(4, 2).0[0] < 255);
}

#[test]
fn huerotate_through_the_pipeline() {
    let bytes = png_bytes(2, 2, |_, _| [255, 0, 0, 200]);
    let out = apply_filter(&bytes, "huerotate").unwrap();
    let img = decode_rgba(&out);
    let p = img.get_pixel(1, 1).0;
    assert_eq!(p[0], 0);
    assert!(p[1] >= 89 && p[1] <= 91);
    assert_eq!(p[2], 0);
    assert_eq!(p[3], 200);
}

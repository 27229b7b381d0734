use pixel_filters::color::{apply_grayscale, apply_invert, apply_posterize, apply_sepia};
use pixel_filters::convolve::{apply_emboss, apply_sharpen};
use pixel_filters::dispatch::{parse_filter, run_filter, FilterKind};
use pixel_filters::pixel::{Pixel, PixelBuffer};
use pixel_filters::resample::apply_pixelate;
use pixel_filters::FilterError;

fn px(r: u8, g: u8, b: u8, a: u8) -> Pixel {
    Pixel { r, g, b, a }
}

fn make_buffer(w: usize, h: usize, f: impl Fn(usize, usize) -> Pixel) -> PixelBuffer {
    let mut data = Vec::with_capacity(w * h);
    for y in 0..h {
        for x in 0..w {
            data.push(f(x, y));
        }
    }
    PixelBuffer { width: w, height: h, data }
}

fn pattern(x: usize, y: usize) -> Pixel {
    px(
        ((x * 37 + y * 11) % 256) as u8,
        ((x * 5 + y * 83) % 256) as u8,
        ((x * 97 + y * 3) % 256) as u8,
        ((x + y * 7) % 256) as u8,
    )
}

fn at(b: &PixelBuffer, x: usize, y: usize) -> Pixel {
    b.data[y * b.width + x]
}

#[test]
fn dimension_preservation_all_kinds() {
    let kinds = [
        FilterKind::Grayscale,
        FilterKind::Blur,
        FilterKind::Huerotate,
        FilterKind::Invert,
        FilterKind::Sepia,
        FilterKind::Pixelate,
        FilterKind::Emboss,
        FilterKind::Sharpen,
        FilterKind::Posterize,
        FilterKind::Unknown,
    ];
    for kind in kinds {
        let src = make_buffer(12, 7, pattern);
        let out = run_filter(src, kind);
        assert_eq!(out.width, 12);
        assert_eq!(out.height, 7);
        assert_eq!(out.data.len(), 12 * 7);
    }
}

#[test]
fn unknown_filter_passes_through() {
    assert_eq!(parse_filter("oil-painting"), FilterKind::Unknown);
    assert_eq!(parse_filter(""), FilterKind::Unknown);
    assert_eq!(parse_filter("Grayscale"), FilterKind::Unknown);
    let src = make_buffer(9, 4, pattern);
    let expected = make_buffer(9, 4, pattern);
    let out = run_filter(src, FilterKind::Unknown);
    assert_eq!(out.data, expected.data);
}

#[test]
fn parse_recognized_tokens() {
    assert_eq!(parse_filter("grayscale"), FilterKind::Grayscale);
    assert_eq!(parse_filter("blur"), FilterKind::Blur);
    assert_eq!(parse_filter("huerotate"), FilterKind::Huerotate);
    assert_eq!(parse_filter("invert"), FilterKind::Invert);
    assert_eq!(parse_filter("sepia"), FilterKind::Sepia);
    assert_eq!(parse_filter("pixelate"), FilterKind::Pixelate);
    assert_eq!(parse_filter("emboss"), FilterKind::Emboss);
    assert_eq!(parse_filter("sharpen"), FilterKind::Sharpen);
    assert_eq!(parse_filter("posterize"), FilterKind::Posterize);
}

#[test]
fn invert_twice_restores() {
    let src = make_buffer(6, 6, pattern);
    let expected = make_buffer(6, 6, pattern);
    let once = apply_invert(&src);
    let twice = apply_invert(&once);
    assert_eq!(twice.data, expected.data);
}

#[test]
fn invert_single_pixel() {
    let src = make_buffer(1, 1, |_, _| px(3, 250, 128, 9));
    let out = apply_invert(&src);
    assert_eq!(at(&out, 0, 0), px(252, 5, 127, 9));
}

#[test]
fn grayscale_forces_alpha() {
    let src = make_buffer(5, 3, |x, y| {
        let mut p = pattern(x, y);
        p.a = 0;
        p
    });
    let out = apply_grayscale(&src);
    for p in &out.data {
        assert_eq!(p.a, 255);
        assert_eq!(p.r, p.g);
        assert_eq!(p.g, p.b);
    }
}

#[test]
fn grayscale_luma_value() {
    // (2126 * 50 + 7152 * 100 + 722 * 200) / 10000 = 965900 / 10000 = 96
    let src = make_buffer(1, 1, |_, _| px(50, 100, 200, 0));
    let out = apply_grayscale(&src);
    assert_eq!(at(&out, 0, 0), px(96, 96, 96, 255));
}

#[test]
fn sepia_sample_pixel() {
    // (393*200 + 769*150 + 189*100) / 1000 = 212850 / 1000 = 212
    // (349*200 + 686*150 + 168*100) / 1000 = 189500 / 1000 = 189
    // (272*200 + 534*150 + 131*100) / 1000 = 147600 / 1000 = 147
    let src = make_buffer(2, 1, |x, _| {
        if x == 0 {
            px(200, 150, 100, 255)
        } else {
            px(255, 255, 255, 17)
        }
    });
    let out = apply_sepia(&src);
    assert_eq!(at(&out, 0, 0), px(212, 189, 147, 255));
    // white saturates the red and green sums but not blue
    // (937 * 255 / 1000 = 238), and alpha is untouched
    assert_eq!(at(&out, 1, 0), px(255, 255, 238, 17));
}

#[test]
fn posterize_quantizes_down() {
    let src = make_buffer(16, 16, pattern);
    let out = apply_posterize(&src, 4).unwrap();
    for y in 0..16 {
        for x in 0..16 {
            let p = at(&out, x, y);
            let q = at(&src, x, y);
            for (c, o) in [(p.r, q.r), (p.g, q.g), (p.b, q.b)] {
                assert!(c == 0 || c == 85 || c == 170 || c == 255);
                assert!(c <= o);
            }
            assert_eq!(p.a, q.a);
        }
    }
    assert_eq!(at(&out, 0, 0).r, (at(&src, 0, 0).r / 85) * 85);
}

#[test]
fn posterize_rejects_degenerate_levels() {
    let src = make_buffer(2, 2, pattern);
    assert!(matches!(
        apply_posterize(&src, 0),
        Err(FilterError::InvalidParameter)
    ));
    assert!(matches!(
        apply_posterize(&src, 1),
        Err(FilterError::InvalidParameter)
    ));
    // two levels is the smallest meaningful count: step 255
    let out = apply_posterize(&src, 2).unwrap();
    for p in &out.data {
        assert!(p.r == 0 || p.r == 255);
    }
}

#[test]
fn sharpen_white_4x4() {
    let src = make_buffer(4, 4, |_, _| px(255, 255, 255, 255));
    let out = apply_sharpen(&src);
    for y in 0..4 {
        for x in 0..4 {
            let expected = if x == 0 || x == 3 || y == 0 || y == 3 {
                px(0, 0, 0, 0)
            } else {
                px(255, 255, 255, 255)
            };
            assert_eq!(at(&out, x, y), expected, "pixel ({}, {})", x, y);
        }
    }
}

#[test]
fn convolution_border_policy() {
    let src = make_buffer(5, 4, pattern);
    for out in [apply_sharpen(&src), apply_emboss(&src)] {
        for y in 0..4 {
            for x in 0..5 {
                if x == 0 || x == 4 || y == 0 || y == 3 {
                    assert_eq!(at(&out, x, y), px(0, 0, 0, 0));
                }
            }
        }
    }
}

#[test]
fn sharpen_interior_value() {
    // a lone mid-gray pixel on black: the center pixel keeps 5 * its own
    // value, clamped; its convolved neighbors go to zero or clamp at 0
    let src = make_buffer(3, 3, |x, y| {
        if x == 1 && y == 1 {
            px(40, 40, 40, 255)
        } else {
            px(0, 0, 0, 255)
        }
    });
    let out = apply_sharpen(&src);
    // sum for the center: 5*40 - 4*0 = 200 per color channel;
    // alpha: 5*255 - 4*255 = 255
    assert_eq!(at(&out, 1, 1), px(200, 200, 200, 255));
}

#[test]
fn emboss_interior_value() {
    let src = make_buffer(3, 3, |x, _| px((x as u8) * 100, 10, 0, 255));
    let out = apply_emboss(&src);
    // red sums per the emboss kernel on columns 0, 100, 200:
    // -2*0 - 1*100 + 0*200 - 1*0 + 1*100 + 1*200 + 0*0 + 1*100 + 2*200 = 700 -> 255
    // green: 10 * (-2-1+0-1+1+1+0+1+2) = 10
    // alpha: 255 * 1 = 255
    assert_eq!(at(&out, 1, 1), px(255, 10, 0, 255));
}

#[test]
fn tiny_buffer_convolution_is_blank() {
    let src = make_buffer(2, 2, pattern);
    let out = apply_sharpen(&src);
    for p in &out.data {
        assert_eq!(*p, px(0, 0, 0, 0));
    }
}

#[test]
fn pixelate_blocks_uniform() {
    let src = make_buffer(20, 20, pattern);
    let out = apply_pixelate(&src);
    assert_eq!(out.width, 20);
    assert_eq!(out.height, 20);
    for by in 0..2 {
        for bx in 0..2 {
            let anchor = at(&out, bx * 10, by * 10);
            for dy in 0..10 {
                for dx in 0..10 {
                    assert_eq!(at(&out, bx * 10 + dx, by * 10 + dy), anchor);
                }
            }
            // each block copies the source pixel at its top-left corner
            assert_eq!(anchor, at(&src, bx * 10, by * 10));
        }
    }
}

#[test]
fn pixelate_small_buffer_floors_at_one() {
    // 4x3 is below the downscale factor: the intermediate is floored to 1x1,
    // so the output repeats the top-left source pixel everywhere
    let src = make_buffer(4, 3, pattern);
    let out = apply_pixelate(&src);
    assert_eq!(out.width, 4);
    assert_eq!(out.height, 3);
    for p in &out.data {
        assert_eq!(*p, pattern(0, 0));
    }
}

#[test]
fn blur_changes_pixels() {
    let src = make_buffer(9, 9, |x, y| {
        if x == 4 && y == 4 {
            px(255, 255, 255, 255)
        } else {
            px(0, 0, 0, 255)
        }
    });
    let out = run_filter(src, FilterKind::Blur);
    assert_eq!(out.width, 9);
    assert_eq!(out.height, 9);
    // the white spike is spread out: the center dims, a neighbor brightens
    assert!(at(&out, 4, 4).r < 255);
    assert!(at(&out, 0, 0).r > 0);
}

#[test]
fn huerotate_changes_pixels() {
    let src = make_buffer(2, 2, |_, _| px(255, 0, 0, 200));
    let out = run_filter(src, FilterKind::Huerotate);
    let p = at(&out, 0, 0);
    // a 90-degree rotation turns pure red green-ish: 0.356 * 255 = 90.78
    assert_eq!(p.r, 0);
    assert!(p.g >= 89 && p.g <= 91);
    assert_eq!(p.b, 0);
    assert_eq!(p.a, 200);
}

#[test]
fn blank_buffer_is_transparent_black() {
    let b = PixelBuffer::new_blank(3, 2);
    assert_eq!(b.width, 3);
    assert_eq!(b.height, 2);
    assert_eq!(b.data.len(), 6);
    for p in &b.data {
        assert_eq!(*p, px(0, 0, 0, 0));
    }
}

#[test]
fn get_and_set_are_row_major() {
    let mut b = PixelBuffer::new_blank(4, 3);
    b.set(2, 1, px(9, 8, 7, 6));
    assert_eq!(b.get(2, 1), px(9, 8, 7, 6));
    assert_eq!(b.data[1 * 4 + 2], px(9, 8, 7, 6));
    assert_eq!(b.get(1, 2), px(0, 0, 0, 0));
}

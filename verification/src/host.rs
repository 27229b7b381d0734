use crate::pixel::{quads, Pixel, PixelBuffer};
use image::ImageEncoder;
use vstd::prelude::*;

verus! {

#[verifier::external_type_specification]
#[verifier::external_body]
pub struct ExImageError(image::error::ImageError);

/// What the decode collaborator returns for given input bytes: `None` where
/// the bytes are not a decodable image, otherwise the width, height and
/// row-major pixels (as channel quadruples) of the image converted to
/// 8-bit RGBA.
pub uninterp spec fn decode_of(bytes: Seq<u8>) -> Option<(usize, usize, Seq<(u8, u8, u8, u8)>)>;

/// What the encode collaborator produces for a buffer of the given
/// dimensions and row-major RGBA pixels: `None` where encoding fails,
/// otherwise the PNG bytes.
pub uninterp spec fn png_encode_of(w: usize, h: usize, px: Seq<(u8, u8, u8, u8)>) -> Option<
    Seq<u8>,
>;

/// What a Gaussian blur of sigma 5 produces on a buffer of the given
/// dimensions and row-major RGBA pixels.
pub uninterp spec fn blur5_of(w: usize, h: usize, px: Seq<(u8, u8, u8, u8)>) -> Seq<
    (u8, u8, u8, u8),
>;

/// What a hue rotation by 90 degrees produces on a buffer of the given
/// dimensions and row-major RGBA pixels.
pub uninterp spec fn huerotate90_of(w: usize, h: usize, px: Seq<(u8, u8, u8, u8)>) -> Seq<
    (u8, u8, u8, u8),
>;

/// Relies on image::load_from_memory, which auto-detects the container
/// format by signature and decodes it, and on
/// image::DynamicImage::to_rgba8, which converts the decoded image to the
/// 4-channel 8-bit model while keeping its dimensions.
#[verifier::external_body]
pub(crate) fn decode_rgba(bytes: &[u8]) -> (r: Result<PixelBuffer, image::error::ImageError>)
    ensures
        r is Ok <==> decode_of(bytes@) is Some,
        r matches Ok(b) ==> b.wf() && b.width <= u32::MAX as usize && b.height <= u32::MAX as usize
            && decode_of(bytes@) == Some((b.width, b.height, quads(b.data@))),
{
    let img = image::load_from_memory(bytes)?.to_rgba8();
    let (w, h) = img.dimensions();
    let data: Vec<Pixel> = img
        .into_raw()
        .chunks_exact(4)
        .map(|c| Pixel { r: c[0], g: c[1], b: c[2], a: c[3] })
        .collect();
    Ok(PixelBuffer { width: w as usize, height: h as usize, data })
}

/// Relies on image::codecs::png::PngEncoder::write_image: encodes an 8-bit
/// RGBA buffer of the given dimensions as PNG bytes into an in-memory
/// vector.
#[verifier::external_body]
pub(crate) fn encode_png(b: &PixelBuffer) -> (r: Result<Vec<u8>, image::error::ImageError>)
    requires
        b.wf(),
        b.width <= u32::MAX as usize,
        b.height <= u32::MAX as usize,
    ensures
        r is Ok <==> png_encode_of(b.width, b.height, quads(b.data@)) is Some,
        r matches Ok(v) ==> png_encode_of(b.width, b.height, quads(b.data@)) == Some(v@),
{
    let raw: Vec<u8> = b.data.iter().flat_map(|p| [p.r, p.g, p.b, p.a]).collect();
    let mut buffer: Vec<u8> = Vec::new();
    let encoder = image::codecs::png::PngEncoder::new(&mut buffer);
    encoder.write_image(&raw, b.width as u32, b.height as u32, image::ColorType::Rgba8)?;
    Ok(buffer)
}

/// Relies on image::imageops::blur: a Gaussian blur with the given sigma,
/// whose output buffer has the same dimensions as the input.
#[verifier::external_body]
pub(crate) fn blur_rgba(b: &PixelBuffer) -> (out: PixelBuffer)
    requires
        b.wf(),
        b.width <= u32::MAX as usize,
        b.height <= u32::MAX as usize,
    ensures
        out.wf(),
        out.width == b.width,
        out.height == b.height,
        quads(out.data@) == blur5_of(b.width, b.height, quads(b.data@)),
{
    let raw: Vec<u8> = b.data.iter().flat_map(|p| [p.r, p.g, p.b, p.a]).collect();
    let img = image::RgbaImage::from_raw(b.width as u32, b.height as u32, raw).unwrap();
    let data: Vec<Pixel> = image::imageops::blur(&img, 5u8.into())
        .into_raw()
        .chunks_exact(4)
        .map(|c| Pixel { r: c[0], g: c[1], b: c[2], a: c[3] })
        .collect();
    PixelBuffer { width: b.width, height: b.height, data }
}

/// Relies on image::imageops::huerotate: rotates every pixel's hue by the
/// given number of degrees; the output buffer has the same dimensions as the
/// input.
#[verifier::external_body]
pub(crate) fn huerotate_rgba(b: &PixelBuffer) -> (out: PixelBuffer)
    requires
        b.wf(),
        b.width <= u32::MAX as usize,
        b.height <= u32::MAX as usize,
    ensures
        out.wf(),
        out.width == b.width,
        out.height == b.height,
        quads(out.data@) == huerotate90_of(b.width, b.height, quads(b.data@)),
{
    let raw: Vec<u8> = b.data.iter().flat_map(|p| [p.r, p.g, p.b, p.a]).collect();
    let img = image::RgbaImage::from_raw(b.width as u32, b.height as u32, raw).unwrap();
    let data: Vec<Pixel> = image::imageops::huerotate(&img, 90)
        .into_raw()
        .chunks_exact(4)
        .map(|c| Pixel { r: c[0], g: c[1], b: c[2], a: c[3] })
        .collect();
    PixelBuffer { width: b.width, height: b.height, data }
}

} // verus!

use crate::pixel::{Pixel, PixelBuffer};
use vstd::prelude::*;

verus! {

/// The luma of a pixel: the standard sRGB-weighted average
/// (2126 R + 7152 G + 722 B) / 10000, truncated.
pub open spec fn spec_luma(p: Pixel) -> int {
    (2126 * p.r + 7152 * p.g + 722 * p.b) / 10000
}

/// Grayscale composition: all three color channels take the luma value and
/// alpha is forced fully opaque, discarding any source transparency.
pub open spec fn spec_gray_pixel(p: Pixel) -> Pixel {
    Pixel { r: spec_luma(p) as u8, g: spec_luma(p) as u8, b: spec_luma(p) as u8, a: 255 }
}

/// Inversion: each color channel is replaced by its distance from 255;
/// alpha is untouched.
pub open spec fn spec_invert_pixel(p: Pixel) -> Pixel {
    Pixel { r: (255 - p.r) as u8, g: (255 - p.g) as u8, b: (255 - p.b) as u8, a: p.a }
}

/// An upper-bound-only clamp: weighted sums of non-negative inputs need no
/// lower clamp.
pub open spec fn min255(v: int) -> u8 {
    if v > 255 {
        255
    } else {
        v as u8
    }
}

/// The sepia weighted sums, exact decimal weights over a common denominator
/// of 1000, truncated and clamped above at 255; alpha is untouched.
pub open spec fn spec_sepia_pixel(p: Pixel) -> Pixel {
    Pixel {
        r: min255((393 * p.r + 769 * p.g + 189 * p.b) / 1000),
        g: min255((349 * p.r + 686 * p.g + 168 * p.b) / 1000),
        b: min255((272 * p.r + 534 * p.g + 131 * p.b) / 1000),
        a: p.a,
    }
}

/// Posterization with a channel step: each color channel is quantized down
/// to the nearest multiple of `step`; alpha is untouched.
pub open spec fn spec_posterize_pixel(p: Pixel, step: u8) -> Pixel
    recommends
        step >= 1,
{
    Pixel {
        r: ((p.r / step) * step) as u8,
        g: ((p.g / step) * step) as u8,
        b: ((p.b / step) * step) as u8,
        a: p.a,
    }
}

pub open spec fn spec_grayscale(s: Seq<Pixel>) -> Seq<Pixel> {
    s.map_values(|p: Pixel| spec_gray_pixel(p))
}

pub open spec fn spec_invert(s: Seq<Pixel>) -> Seq<Pixel> {
    s.map_values(|p: Pixel| spec_invert_pixel(p))
}

pub open spec fn spec_sepia(s: Seq<Pixel>) -> Seq<Pixel> {
    s.map_values(|p: Pixel| spec_sepia_pixel(p))
}

pub open spec fn spec_posterize(s: Seq<Pixel>, step: u8) -> Seq<Pixel> {
    s.map_values(|p: Pixel| spec_posterize_pixel(p, step))
}

/// Grayscale one pixel.
fn gray_pixel(p: Pixel) -> (q: Pixel)
    ensures
        q == spec_gray_pixel(p),
{
    let sum: u32 = 2126 * (p.r as u32) + 7152 * (p.g as u32) + 722 * (p.b as u32);
    let luma: u8 = (sum / 10000) as u8;
    Pixel { r: luma, g: luma, b: luma, a: 255 }
}

/// Invert one pixel.
fn invert_px(p: Pixel) -> (q: Pixel)
    ensures
        q == spec_invert_pixel(p),
{
    Pixel { r: 255 - p.r, g: 255 - p.g, b: 255 - p.b, a: p.a }
}

/// One sepia weighted sum, truncated and clamped above at 255.
fn sepia_chan(wr: u32, wg: u32, wb: u32, p: Pixel) -> (v: u8)
    requires
        wr + wg + wb <= 2000,
    ensures
        v == min255((wr * p.r + wg * p.g + wb * p.b) / 1000),
{
    proof {
        assert(wr * p.r + wg * p.g + wb * p.b <= 2000 * 255) by (nonlinear_arith)
            requires
                wr + wg + wb <= 2000,
                0 <= wr && 0 <= wg && 0 <= wb,
                p.r <= 255 && p.g <= 255 && p.b <= 255,
        ;
    }
    let sum: u32 = (wr * (p.r as u32) + wg * (p.g as u32) + wb * (p.b as u32)) / 1000;
    if sum > 255 {
        255
    } else {
        sum as u8
    }
}

/// Sepia-tone one pixel.
fn sepia_pixel(p: Pixel) -> (q: Pixel)
    ensures
        q == spec_sepia_pixel(p),
{
    Pixel {
        r: sepia_chan(393, 769, 189, p),
        g: sepia_chan(349, 686, 168, p),
        b: sepia_chan(272, 534, 131, p),
        a: p.a,
    }
}

/// Posterize one pixel.
fn posterize_pixel(p: Pixel, step: u8) -> (q: Pixel)
    requires
        step >= 1,
    ensures
        q == spec_posterize_pixel(p, step),
{
    proof {
        assert((p.r / step) * step <= p.r) by (nonlinear_arith)
            requires
                step >= 1,
        ;
        assert((p.g / step) * step <= p.g) by (nonlinear_arith)
            requires
                step >= 1,
        ;
        assert((p.b / step) * step <= p.b) by (nonlinear_arith)
            requires
                step >= 1,
        ;
    }
    Pixel { r: (p.r / step) * step, g: (p.g / step) * step, b: (p.b / step) * step, a: p.a }
}

/// Compose a grayscale version of the buffer: every output pixel carries the
/// source pixel's luma in all three color channels, with alpha forced to 255.
pub fn apply_grayscale(src: &PixelBuffer) -> (out: PixelBuffer)
    requires
        src.wf(),
    ensures
        out.wf(),
        out.width == src.width,
        out.height == src.height,
        out.data@ == spec_grayscale(src.data@),
        forall|i: int| 0 <= i < out.data@.len() ==> (#[trigger] out.data@[i]).a == 255,
{
    let mut data: Vec<Pixel> = Vec::new();
    let n = src.data.len();
    let mut i: usize = 0;
    while i < n
        invariant
            i <= n,
            n == src.data@.len(),
            data@.len() == i,
            forall|j: int| 0 <= j < i ==> data@[j] == spec_gray_pixel(src.data@[j]),
        decreases n - i,
    {
        data.push(gray_pixel(src.data[i]));
        i = i + 1;
    }
    let out = PixelBuffer { width: src.width, height: src.height, data };
    proof {
        assert(out.data@ =~= spec_grayscale(src.data@));
    }
    out
}

/// Invert the buffer: each color channel becomes its distance from 255,
/// alpha untouched.
pub fn apply_invert(src: &PixelBuffer) -> (out: PixelBuffer)
    requires
        src.wf(),
    ensures
        out.wf(),
        out.width == src.width,
        out.height == src.height,
        out.data@ == spec_invert(src.data@),
{
    let mut data: Vec<Pixel> = Vec::new();
    let n = src.data.len();
    let mut i: usize = 0;
    while i < n
        invariant
            i <= n,
            n == src.data@.len(),
            data@.len() == i,
            forall|j: int| 0 <= j < i ==> data@[j] == spec_invert_pixel(src.data@[j]),
        decreases n - i,
    {
        data.push(invert_px(src.data[i]));
        i = i + 1;
    }
    let out = PixelBuffer { width: src.width, height: src.height, data };
    proof {
        assert(out.data@ =~= spec_invert(src.data@));
    }
    out
}

/// Sepia-tone the buffer, pixel by pixel.
pub fn apply_sepia(src: &PixelBuffer) -> (out: PixelBuffer)
    requires
        src.wf(),
    ensures
        out.wf(),
        out.width == src.width,
        out.height == src.height,
        out.data@ == spec_sepia(src.data@),
{
    let mut data: Vec<Pixel> = Vec::new();
    let n = src.data.len();
    let mut i: usize = 0;
    while i < n
        invariant
            i <= n,
            n == src.data@.len(),
            data@.len() == i,
            forall|j: int| 0 <= j < i ==> data@[j] == spec_sepia_pixel(src.data@[j]),
        decreases n - i,
    {
        data.push(sepia_pixel(src.data[i]));
        i = i + 1;
    }
    let out = PixelBuffer { width: src.width, height: src.height, data };
    proof {
        assert(out.data@ =~= spec_sepia(src.data@));
    }
    out
}

/// Posterize the buffer with a given channel step.
pub fn posterize_step(src: &PixelBuffer, step: u8) -> (out: PixelBuffer)
    requires
        src.wf(),
        step >= 1,
    ensures
        out.wf(),
        out.width == src.width,
        out.height == src.height,
        out.data@ == spec_posterize(src.data@, step),
{
    let mut data: Vec<Pixel> = Vec::new();
    let n = src.data.len();
    let mut i: usize = 0;
    while i < n
        invariant
            i <= n,
            n == src.data@.len(),
            step >= 1,
            data@.len() == i,
            forall|j: int| 0 <= j < i ==> data@[j] == spec_posterize_pixel(src.data@[j], step),
        decreases n - i,
    {
        data.push(posterize_pixel(src.data[i], step));
        i = i + 1;
    }
    let out = PixelBuffer { width: src.width, height: src.height, data };
    proof {
        assert(out.data@ =~= spec_posterize(src.data@, step));
    }
    out
}

/// Posterize the buffer to the given number of levels per channel, with
/// `step = 255 / (levels - 1)`. Fewer than two levels would divide by zero
/// and is rejected as an invalid parameter.
pub fn apply_posterize(src: &PixelBuffer, levels: u8) -> (r: Result<PixelBuffer, crate::FilterError>)
    requires
        src.wf(),
    ensures
        levels < 2 ==> r == Err::<PixelBuffer, crate::FilterError>(crate::FilterError::InvalidParameter),
        levels >= 2 ==> (r matches Ok(out) && out.wf() && out.width == src.width
            && out.height == src.height && out.data@ == spec_posterize(
            src.data@,
            (255int / (levels - 1)) as u8,
        )),
{
    if levels < 2 {
        return Err(crate::FilterError::InvalidParameter);
    }
    let step: u8 = 255 / (levels - 1);
    proof {
        assert(255int / ((levels - 1) as int) >= 1) by (nonlinear_arith)
            requires
                2 <= levels <= 255,
        ;
    }
    Ok(posterize_step(src, step))
}

} // verus!

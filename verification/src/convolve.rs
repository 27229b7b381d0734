use crate::pixel::{chan, lemma_row_major, pix_at, zero_pixel, Pixel, PixelBuffer};
use vstd::prelude::*;

verus! {

/// A fixed 3x3 matrix of signed weights, row-major, with the center at
/// `m11`. No normalization is applied: the weights must already sum to the
/// intended gain.
#[derive(Clone, Copy, PartialEq, Eq, Structural, Debug)]
pub struct Kernel {
    pub m00: i32,
    pub m01: i32,
    pub m02: i32,
    pub m10: i32,
    pub m11: i32,
    pub m12: i32,
    pub m20: i32,
    pub m21: i32,
    pub m22: i32,
}

/// The sharpen kernel: weights sum to 1, preserving overall brightness while
/// amplifying local contrast.
pub open spec fn spec_sharpen_kernel() -> Kernel {
    Kernel { m00: 0, m01: -1i32, m02: 0, m10: -1i32, m11: 5, m12: -1i32, m20: 0, m21: -1i32, m22: 0 }
}

/// The emboss kernel: a directional relief effect.
pub open spec fn spec_emboss_kernel() -> Kernel {
    Kernel { m00: -2i32, m01: -1i32, m02: 0, m10: -1i32, m11: 1, m12: 1, m20: 0, m21: 1, m22: 2 }
}

/// Clamp a weighted sum into the 8-bit channel range and truncate.
pub open spec fn clamp255(v: int) -> u8 {
    if v < 0 {
        0
    } else if v > 255 {
        255
    } else {
        v as u8
    }
}

/// The weighted sum of one channel over the 3x3 neighborhood of (x, y) in a
/// row-major pixel sequence of width `w`.
pub open spec fn spec_conv_sum(s: Seq<Pixel>, w: int, k: Kernel, x: int, y: int, c: int) -> int {
    k.m00 * chan(pix_at(s, w, x - 1, y - 1), c) + k.m01 * chan(pix_at(s, w, x, y - 1), c) + k.m02
        * chan(pix_at(s, w, x + 1, y - 1), c) + k.m10 * chan(pix_at(s, w, x - 1, y), c) + k.m11
        * chan(pix_at(s, w, x, y), c) + k.m12 * chan(pix_at(s, w, x + 1, y), c) + k.m20 * chan(
        pix_at(s, w, x - 1, y + 1),
        c,
    ) + k.m21 * chan(pix_at(s, w, x, y + 1), c) + k.m22 * chan(pix_at(s, w, x + 1, y + 1), c)
}

/// The convolved pixel at (x, y): each of the four channels is the clamped,
/// truncated weighted sum of its own neighborhood values.
pub open spec fn spec_conv_pixel(s: Seq<Pixel>, w: int, k: Kernel, x: int, y: int) -> Pixel {
    Pixel {
        r: clamp255(spec_conv_sum(s, w, k, x, y, 0)),
        g: clamp255(spec_conv_sum(s, w, k, x, y, 1)),
        b: clamp255(spec_conv_sum(s, w, k, x, y, 2)),
        a: clamp255(spec_conv_sum(s, w, k, x, y, 3)),
    }
}

/// Whether (x, y) lies strictly inside the one-pixel border of a `w` by `h`
/// grid.
pub open spec fn interior(w: int, h: int, x: int, y: int) -> bool {
    1 <= x < w - 1 && 1 <= y < h - 1
}

/// The convolution of a whole buffer: interior pixels take their kernel
/// sums; the one-pixel border is not computed and keeps the blank buffer's
/// fully transparent black.
pub open spec fn spec_convolve(w: int, h: int, s: Seq<Pixel>, k: Kernel) -> Seq<Pixel> {
    Seq::new(
        (w * h) as nat,
        |i: int|
            if interior(w, h, i % w, i / w) {
                spec_conv_pixel(s, w, k, i % w, i / w)
            } else {
                zero_pixel()
            },
    )
}

/// One weighted channel term, computed in 64-bit arithmetic, with explicit
/// bounds so that nine such terms sum without overflow.
fn mul_wv(k: i32, v: u8) -> (r: i64)
    ensures
        r == k * v,
        -255 * 0x8000_0000i64 <= r <= 255 * 0x8000_0000i64,
{
    proof {
        assert(-0x8000_0000 * 255 <= (k as int) * (v as int) <= 0x7fff_ffff * 255)
            by (nonlinear_arith)
            requires
                -0x8000_0000 <= k <= 0x7fff_ffff,
                0 <= v <= 255,
        ;
    }
    (k as i64) * (v as i64)
}

/// The convolved pixel at interior position (x, y).
fn conv_pixel(src: &PixelBuffer, k: &Kernel, x: usize, y: usize) -> (p: Pixel)
    requires
        src.wf(),
        1 <= x < src.width - 1,
        1 <= y < src.height - 1,
    ensures
        p == spec_conv_pixel(src.data@, src.width as int, *k, x as int, y as int),
{
    let p00 = src.get(x - 1, y - 1);
    let p01 = src.get(x, y - 1);
    let p02 = src.get(x + 1, y - 1);
    let p10 = src.get(x - 1, y);
    let p11 = src.get(x, y);
    let p12 = src.get(x + 1, y);
    let p20 = src.get(x - 1, y + 1);
    let p21 = src.get(x, y + 1);
    let p22 = src.get(x + 1, y + 1);
    let r = clamp_sum(
        mul_wv(k.m00, p00.r) + mul_wv(k.m01, p01.r) + mul_wv(k.m02, p02.r) + mul_wv(k.m10, p10.r)
            + mul_wv(k.m11, p11.r) + mul_wv(k.m12, p12.r) + mul_wv(k.m20, p20.r) + mul_wv(
            k.m21,
            p21.r,
        ) + mul_wv(k.m22, p22.r),
    );
    let g = clamp_sum(
        mul_wv(k.m00, p00.g) + mul_wv(k.m01, p01.g) + mul_wv(k.m02, p02.g) + mul_wv(k.m10, p10.g)
            + mul_wv(k.m11, p11.g) + mul_wv(k.m12, p12.g) + mul_wv(k.m20, p20.g) + mul_wv(
            k.m21,
            p21.g,
        ) + mul_wv(k.m22, p22.g),
    );
    let b = clamp_sum(
        mul_wv(k.m00, p00.b) + mul_wv(k.m01, p01.b) + mul_wv(k.m02, p02.b) + mul_wv(k.m10, p10.b)
            + mul_wv(k.m11, p11.b) + mul_wv(k.m12, p12.b) + mul_wv(k.m20, p20.b) + mul_wv(
            k.m21,
            p21.b,
        ) + mul_wv(k.m22, p22.b),
    );
    let a = clamp_sum(
        mul_wv(k.m00, p00.a) + mul_wv(k.m01, p01.a) + mul_wv(k.m02, p02.a) + mul_wv(k.m10, p10.a)
            + mul_wv(k.m11, p11.a) + mul_wv(k.m12, p12.a) + mul_wv(k.m20, p20.a) + mul_wv(
            k.m21,
            p21.a,
        ) + mul_wv(k.m22, p22.a),
    );
    Pixel { r, g, b, a }
}

/// Clamp a 64-bit weighted sum into the 8-bit channel range.
fn clamp_sum(v: i64) -> (c: u8)
    ensures
        c == clamp255(v as int),
{
    if v < 0 {
        0
    } else if v > 255 {
        255
    } else {
        v as u8
    }
}

/// Apply a 3x3 kernel to every interior pixel of the buffer, producing a new
/// buffer of identical dimensions whose one-pixel border stays fully
/// transparent black. If the buffer is narrower or shorter than 3, no
/// interior pixels exist and the whole output is blank.
pub fn apply_convolution(src: &PixelBuffer, kernel: &Kernel) -> (out: PixelBuffer)
    requires
        src.wf(),
    ensures
        out.wf(),
        out.width == src.width,
        out.height == src.height,
        out.data@ == spec_convolve(src.width as int, src.height as int, src.data@, *kernel),
{
    let w = src.width;
    let h = src.height;
    let n = src.data.len();
    let ghost target = spec_convolve(w as int, h as int, src.data@, *kernel);
    let mut out = PixelBuffer::new_blank(w, h);
    if w < 3 || h < 3 {
        proof {
            assert forall|i: int| 0 <= i < w * h implies out.data@[i] == target[i] by {
                vstd::arithmetic::div_mod::lemma_mod_division_less_than_divisor(i, w as int);
                vstd::arithmetic::div_mod::lemma_div_pos_is_pos(i, w as int);
                assert(!interior(w as int, h as int, i % (w as int), i / (w as int)));
            }
            assert(out.data@ =~= target);
        }
        return out;
    }
    let mut y: usize = 1;
    while y < h - 1
        invariant
            src.wf(),
            out.wf(),
            out.width == w,
            out.height == h,
            w == src.width,
            h == src.height,
            3 <= w,
            3 <= h,
            1 <= y <= h - 1,
            target == spec_convolve(w as int, h as int, src.data@, *kernel),
            forall|i: int|
                0 <= i < w * h ==> out.data@[i] == (if i / (w as int) < y {
                    target[i]
                } else {
                    zero_pixel()
                }),
        decreases h - y,
    {
        let mut x: usize = 1;
        while x < w - 1
            invariant
                src.wf(),
                out.wf(),
                out.width == w,
                out.height == h,
                w == src.width,
                h == src.height,
                3 <= w,
                3 <= h,
                1 <= y < h - 1,
                1 <= x <= w - 1,
                target == spec_convolve(w as int, h as int, src.data@, *kernel),
                forall|i: int|
                    0 <= i < w * h ==> out.data@[i] == (if i / (w as int) < y || (i / (w as int)
                        == y && i % (w as int) < x) {
                        target[i]
                    } else {
                        zero_pixel()
                    }),
            decreases w - x,
        {
            let p = conv_pixel(src, kernel, x, y);
            proof {
                lemma_row_major(w as int, h as int, x as int, y as int);
                assert(target[y as int * w as int + x as int] == p);
            }
            let ghost prev = out.data@;
            out.set(x, y, p);
            proof {
                let wi = w as int;
                let idx = y as int * wi + x as int;
                assert forall|i: int| 0 <= i < w * h implies out.data@[i] == (if i / wi < y || (i
                    / wi == y && i % wi < x + 1) {
                    target[i]
                } else {
                    zero_pixel()
                }) by {
                    vstd::arithmetic::div_mod::lemma_fundamental_div_mod(i, wi);
                    if i == idx {
                        assert(out.data@[i] == p);
                    } else {
                        if i / wi == y && i % wi == x {
                            assert(i == wi * (i / wi) + i % wi);
                            assert(wi * y == y as int * wi) by (nonlinear_arith);
                            assert(false);
                        }
                        assert(out.data@[i] == prev[i]);
                        assert(prev[i] == (if i / wi < y || (i / wi == y && i % wi < x) {
                            target[i]
                        } else {
                            zero_pixel()
                        }));
                    }
                }
            }
            x = x + 1;
        }
        y = y + 1;
        proof {
            assert forall|i: int| 0 <= i < w * h && i / (w as int) < y implies out.data@[i]
                == target[i] by {
                if i / (w as int) == y - 1 && i % (w as int) >= w - 1 {
                    vstd::arithmetic::div_mod::lemma_mod_division_less_than_divisor(i, w as int);
                    assert(!interior(w as int, h as int, i % (w as int), i / (w as int)));
                }
            }
        }
    }
    proof {
        assert forall|i: int| 0 <= i < w * h implies out.data@[i] == target[i] by {
            if i / (w as int) >= h - 1 {
                vstd::arithmetic::div_mod::lemma_mod_division_less_than_divisor(i, w as int);
                assert(!interior(w as int, h as int, i % (w as int), i / (w as int)));
            }
        }
        assert(out.data@ =~= target);
    }
    out
}

/// Sharpen the buffer: convolution with the sharpen kernel.
pub fn apply_sharpen(src: &PixelBuffer) -> (out: PixelBuffer)
    requires
        src.wf(),
    ensures
        out.wf(),
        out.width == src.width,
        out.height == src.height,
        out.data@ == spec_convolve(
            src.width as int,
            src.height as int,
            src.data@,
            spec_sharpen_kernel(),
        ),
{
    let kernel = Kernel { m00: 0, m01: -1, m02: 0, m10: -1, m11: 5, m12: -1, m20: 0, m21: -1, m22: 0 };
    apply_convolution(src, &kernel)
}

/// Emboss the buffer: convolution with the emboss kernel.
pub fn apply_emboss(src: &PixelBuffer) -> (out: PixelBuffer)
    requires
        src.wf(),
    ensures
        out.wf(),
        out.width == src.width,
        out.height == src.height,
        out.data@ == spec_convolve(
            src.width as int,
            src.height as int,
            src.data@,
            spec_emboss_kernel(),
        ),
{
    let kernel = Kernel { m00: -2, m01: -1, m02: 0, m10: -1, m11: 1, m12: 1, m20: 0, m21: 1, m22: 2 };
    apply_convolution(src, &kernel)
}

} // verus!

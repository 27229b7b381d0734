use crate::pixel::{lemma_row_major, pix_at, zero_pixel, Pixel, PixelBuffer};
use vstd::arithmetic::div_mod::{
    lemma_div_pos_is_pos, lemma_fundamental_div_mod, lemma_mod_division_less_than_divisor,
    lemma_multiply_divide_lt,
};
use vstd::arithmetic::mul::{lemma_mul_nonnegative, lemma_mul_strict_inequality};
use vstd::prelude::*;

verus! {

/// Nearest-neighbor resampling of a row-major grid of source dimensions
/// (sw, sh) to destination dimensions (dw, dh): destination pixel (dx, dy)
/// takes the source pixel at (dx * sw / dw, dy * sh / dh), with no
/// interpolation or blending.
pub open spec fn spec_resize(s: Seq<Pixel>, sw: int, sh: int, dw: int, dh: int) -> Seq<Pixel> {
    Seq::new(
        (dw * dh) as nat,
        |i: int| pix_at(s, sw, (i % dw) * sw / dw, (i / dw) * sh / dh),
    )
}

/// Pixelation: downscale by a factor of 10 (each dimension floored at 1 so
/// that no zero-size intermediate arises), then upscale back to the original
/// dimensions, both by nearest-neighbor sampling.
pub open spec fn spec_pixelate(w: int, h: int, s: Seq<Pixel>) -> Seq<Pixel> {
    let sw = if w / 10 >= 1 {
        w / 10
    } else {
        1
    };
    let sh = if h / 10 >= 1 {
        h / 10
    } else {
        1
    };
    spec_resize(spec_resize(s, w, h, sw, sh), sw, sh, w, h)
}

/// A nearest-neighbor source coordinate lands inside the source extent.
pub proof fn lemma_nearest_in_range(d: int, dn: int, sn: int)
    requires
        0 <= d < dn,
        1 <= sn,
    ensures
        0 <= d * sn / dn < sn,
{
    lemma_mul_strict_inequality(d, dn, sn);
    lemma_multiply_divide_lt(d * sn, dn, sn);
    lemma_mul_nonnegative(d, sn);
    lemma_div_pos_is_pos(d * sn, dn);
}

/// Resample the buffer to the given destination dimensions by
/// nearest-neighbor sampling.
pub fn resize_nearest(src: &PixelBuffer, dw: usize, dh: usize) -> (out: PixelBuffer)
    requires
        src.wf(),
        src.width >= 1,
        src.height >= 1,
        dw >= 1,
        dh >= 1,
        (dw as int) * (dh as int) <= usize::MAX,
    ensures
        out.wf(),
        out.width == dw,
        out.height == dh,
        out.data@ == spec_resize(
            src.data@,
            src.width as int,
            src.height as int,
            dw as int,
            dh as int,
        ),
{
    let sw = src.width;
    let sh = src.height;
    let ghost target = spec_resize(src.data@, sw as int, sh as int, dw as int, dh as int);
    let mut out = PixelBuffer::new_blank(dw, dh);
    let mut dy: usize = 0;
    while dy < dh
        invariant
            src.wf(),
            out.wf(),
            out.width == dw,
            out.height == dh,
            sw == src.width,
            sh == src.height,
            1 <= sw,
            1 <= sh,
            1 <= dw,
            1 <= dh,
            0 <= dy <= dh,
            target == spec_resize(src.data@, sw as int, sh as int, dw as int, dh as int),
            forall|i: int|
                0 <= i < dw * dh ==> out.data@[i] == (if i / (dw as int) < dy {
                    target[i]
                } else {
                    zero_pixel()
                }),
        decreases dh - dy,
    {
        let mut dx: usize = 0;
        while dx < dw
            invariant
                src.wf(),
                out.wf(),
                out.width == dw,
                out.height == dh,
                sw == src.width,
                sh == src.height,
                1 <= sw,
                1 <= sh,
                1 <= dw,
                1 <= dh,
                0 <= dy < dh,
                0 <= dx <= dw,
                target == spec_resize(src.data@, sw as int, sh as int, dw as int, dh as int),
                forall|i: int|
                    0 <= i < dw * dh ==> out.data@[i] == (if i / (dw as int) < dy || (i / (dw as int)
                        == dy && i % (dw as int) < dx) {
                        target[i]
                    } else {
                        zero_pixel()
                    }),
            decreases dw - dx,
        {
            proof {
                lemma_nearest_in_range(dx as int, dw as int, sw as int);
                lemma_nearest_in_range(dy as int, dh as int, sh as int);
                assert((dx as int) * (sw as int) < 0xffff_ffff_ffff_ffff_ffff_ffff_ffff_ffff)
                    by (nonlinear_arith)
                    requires
                        0 <= dx <= 0xffff_ffff_ffff_ffff,
                        0 <= sw <= 0xffff_ffff_ffff_ffff,
                ;
                assert((dy as int) * (sh as int) < 0xffff_ffff_ffff_ffff_ffff_ffff_ffff_ffff)
                    by (nonlinear_arith)
                    requires
                        0 <= dy <= 0xffff_ffff_ffff_ffff,
                        0 <= sh <= 0xffff_ffff_ffff_ffff,
                ;
            }
            let sx: usize = ((dx as u128) * (sw as u128) / (dw as u128)) as usize;
            let sy: usize = ((dy as u128) * (sh as u128) / (dh as u128)) as usize;
            let p = src.get(sx, sy);
            proof {
                lemma_row_major(dw as int, dh as int, dx as int, dy as int);
                assert(target[dy as int * dw as int + dx as int] == p);
            }
            let ghost prev = out.data@;
            out.set(dx, dy, p);
            proof {
                let dwi = dw as int;
                let idx = dy as int * dwi + dx as int;
                assert forall|i: int| 0 <= i < dw * dh implies out.data@[i] == (if i / dwi < dy || (
                i / dwi == dy && i % dwi < dx + 1) {
                    target[i]
                } else {
                    zero_pixel()
                }) by {
                    lemma_fundamental_div_mod(i, dwi);
                    if i == idx {
                        assert(out.data@[i] == p);
                    } else {
                        if i / dwi == dy && i % dwi == dx {
                            assert(i == dwi * (i / dwi) + i % dwi);
                            assert(dwi * dy == dy as int * dwi) by (nonlinear_arith);
                            assert(false);
                        }
                        assert(out.data@[i] == prev[i]);
                        assert(prev[i] == (if i / dwi < dy || (i / dwi == dy && i % dwi < dx) {
                            target[i]
                        } else {
                            zero_pixel()
                        }));
                    }
                }
            }
            dx = dx + 1;
        }
        dy = dy + 1;
        proof {
            assert forall|i: int| 0 <= i < dw * dh && i / (dw as int) < dy implies out.data@[i]
                == target[i] by {
                lemma_mod_division_less_than_divisor(i, dw as int);
            }
        }
    }
    proof {
        assert forall|i: int| 0 <= i < dw * dh implies out.data@[i] == target[i] by {
            lemma_multiply_divide_lt(i, dw as int, dh as int);
        }
        assert(out.data@ =~= target);
    }
    out
}

/// Pixelate the buffer: downscale to a tenth of each dimension (floored at
/// 1), then upscale back, both by nearest-neighbor sampling. A buffer with a
/// zero dimension has no pixels and passes through unchanged.
pub fn apply_pixelate(src: &PixelBuffer) -> (out: PixelBuffer)
    requires
        src.wf(),
    ensures
        out.wf(),
        out.width == src.width,
        out.height == src.height,
        src.width >= 1 && src.height >= 1 ==> out.data@ == spec_pixelate(
            src.width as int,
            src.height as int,
            src.data@,
        ),
        src.width == 0 || src.height == 0 ==> out.data@ == src.data@,
{
    let w = src.width;
    let h = src.height;
    if w == 0 || h == 0 {
        let out = PixelBuffer { width: w, height: h, data: Vec::new() };
        proof {
            assert((w as int) * (h as int) == 0) by (nonlinear_arith)
                requires
                    w == 0 || h == 0,
            ;
            assert(out.data@ =~= src.data@);
        }
        return out;
    }
    let n = src.data.len();
    let mut sw2: usize = w / 10;
    if sw2 == 0 {
        sw2 = 1;
    }
    let mut sh2: usize = h / 10;
    if sh2 == 0 {
        sh2 = 1;
    }
    proof {
        assert(sw2 * sh2 <= w * h) by (nonlinear_arith)
            requires
                1 <= sw2 <= w,
                1 <= sh2 <= h,
        ;
    }
    let small = resize_nearest(src, sw2, sh2);
    resize_nearest(&small, w, h)
}

} // verus!

use crate::color::{spec_invert, spec_posterize};
use crate::convolve::{interior, spec_conv_pixel, spec_convolve, Kernel};
use crate::pixel::{lemma_row_major, pix_at, zero_pixel, Pixel};
use crate::resample::spec_pixelate;
use vstd::arithmetic::div_mod::{
    lemma_div_denominator, lemma_div_is_ordered, lemma_div_multiples_vanish,
    lemma_fundamental_div_mod, lemma_multiply_divide_lt,
};
use vstd::prelude::*;

verus! {

/// Applying the inversion filter twice reproduces the original pixels
/// exactly: 255 - (255 - v) = v for every channel value in [0, 255].
pub proof fn lemma_invert_involutive(s: Seq<Pixel>)
    ensures
        spec_invert(spec_invert(s)) == s,
{
    assert forall|i: int| 0 <= i < s.len() implies spec_invert(spec_invert(s))[i] == s[i] by {}
    assert(spec_invert(spec_invert(s)) =~= s);
}

/// Unknown-filter passthrough: a name token outside the recognized set
/// resolves to `Unknown`, and the dispatched result is the input pixels,
/// unchanged.
pub proof fn lemma_unknown_passthrough(w: usize, h: usize, s: Seq<Pixel>, name: Seq<char>)
    requires
        name != "grayscale"@,
        name != "blur"@,
        name != "huerotate"@,
        name != "invert"@,
        name != "sepia"@,
        name != "pixelate"@,
        name != "emboss"@,
        name != "sharpen"@,
        name != "posterize"@,
    ensures
        crate::dispatch::spec_parse_filter(name) == crate::dispatch::FilterKind::Unknown,
        crate::dispatch::spec_run_filter(w, h, s, crate::dispatch::spec_parse_filter(name)) == s,
{
}

/// Whether a channel value is one of the four levels that posterization
/// with step 85 can produce.
pub open spec fn is_level85(v: u8) -> bool {
    v == 0 || v == 85 || v == 170 || v == 255
}

/// Posterization with step 85 (four levels) quantizes every color channel
/// to one of {0, 85, 170, 255}, never increases a color channel, and leaves
/// alpha untouched.
pub proof fn lemma_posterize_quantized(s: Seq<Pixel>)
    ensures
        spec_posterize(s, 85).len() == s.len(),
        forall|i: int|
            0 <= i < s.len() ==> {
                let q = #[trigger] spec_posterize(s, 85)[i];
                &&& is_level85(q.r) && is_level85(q.g) && is_level85(q.b)
                &&& q.r <= s[i].r && q.g <= s[i].g && q.b <= s[i].b
                &&& q.a == s[i].a
            },
{
    assert forall|i: int| 0 <= i < s.len() implies {
        let q = #[trigger] spec_posterize(s, 85)[i];
        &&& is_level85(q.r) && is_level85(q.g) && is_level85(q.b)
        &&& q.r <= s[i].r && q.g <= s[i].g && q.b <= s[i].b
        &&& q.a == s[i].a
    } by {
        let p = s[i];
        lemma_fundamental_div_mod(p.r as int, 85);
        lemma_fundamental_div_mod(p.g as int, 85);
        lemma_fundamental_div_mod(p.b as int, 85);
        lemma_div_is_ordered(p.r as int, 255, 85);
        lemma_div_is_ordered(p.g as int, 255, 85);
        lemma_div_is_ordered(p.b as int, 255, 85);
    }
}

/// The convolution border policy: on a buffer of dimensions at least 3 by 3,
/// every pixel of the outermost one-pixel border of the convolved output is
/// fully transparent black.
pub proof fn lemma_convolve_border(w: int, h: int, s: Seq<Pixel>, k: Kernel, x: int, y: int)
    requires
        3 <= w,
        3 <= h,
        0 <= x < w,
        0 <= y < h,
        x == 0 || x == w - 1 || y == 0 || y == h - 1,
    ensures
        spec_convolve(w, h, s, k)[y * w + x] == zero_pixel(),
{
    lemma_row_major(w, h, x, y);
}

/// Away from the border, the convolved output is exactly the clamped,
/// truncated 3x3 weighted sum of the source neighborhood.
pub proof fn lemma_convolve_interior(w: int, h: int, s: Seq<Pixel>, k: Kernel, x: int, y: int)
    requires
        0 <= x < w,
        0 <= y < h,
        interior(w, h, x, y),
    ensures
        spec_convolve(w, h, s, k)[y * w + x] == spec_conv_pixel(s, w, k, x, y),
{
    lemma_row_major(w, h, x, y);
}

/// On dimensions that are multiples of 10, pixelation makes every output
/// pixel a copy of the source pixel at the top-left corner of its 10 by 10
/// block.
pub proof fn lemma_pixelate_exact(w: int, h: int, s: Seq<Pixel>, x: int, y: int)
    requires
        w % 10 == 0,
        h % 10 == 0,
        10 <= w,
        10 <= h,
        0 <= x < w,
        0 <= y < h,
    ensures
        spec_pixelate(w, h, s)[y * w + x] == pix_at(s, w, 10 * (x / 10), 10 * (y / 10)),
{
    let sw = w / 10;
    let sh = h / 10;
    lemma_fundamental_div_mod(w, 10);
    lemma_fundamental_div_mod(h, 10);
    assert(w == 10 * sw);
    assert(h == 10 * sh);
    lemma_div_is_ordered(10, w, 10);
    lemma_div_is_ordered(10, h, 10);
    assert(sw >= 1);
    assert(sh >= 1);
    let small = crate::resample::spec_resize(s, w, h, sw, sh);
    lemma_row_major(w, h, x, y);
    assert((y * w + x) % w == x && (y * w + x) / w == y);
    // the upscale pass samples the small image at (x * sw / w, y * sh / h)
    lemma_scaled_coordinate(x, sw);
    lemma_scaled_coordinate(y, sh);
    assert(x * sw / w == x / 10);
    assert(y * sh / h == y / 10);
    let sx = x / 10;
    let sy = y / 10;
    lemma_multiply_divide_lt(x, 10, sw);
    lemma_multiply_divide_lt(y, 10, sh);
    assert(0 <= sx < sw);
    assert(0 <= sy < sh);
    assert(spec_pixelate(w, h, s)[y * w + x] == pix_at(small, sw, sx, sy));
    lemma_row_major(sw, sh, sx, sy);
    assert(pix_at(small, sw, sx, sy) == small[sy * sw + sx]);
    // the downscale pass samples the source at (sx * w / sw, sy * h / sh)
    lemma_unscaled_coordinate(sx, sw);
    lemma_unscaled_coordinate(sy, sh);
    assert(small[sy * sw + sx] == pix_at(s, w, 10 * sx, 10 * sy));
}

/// With `n == 10 * m`, the nearest-neighbor coordinate `c * m / n` is
/// `c / 10`.
proof fn lemma_scaled_coordinate(c: int, m: int)
    requires
        0 <= c,
        1 <= m,
    ensures
        c * m / (10 * m) == c / 10,
{
    lemma_div_denominator(c * m, m, 10);
    assert(c * m / m / 10 == c * m / (m * 10));
    assert(c * m == m * c) by (nonlinear_arith);
    lemma_div_multiples_vanish(c, m);
    assert(m * c / m == c);
    assert(m * 10 == 10 * m);
}

/// With `n == 10 * m`, the nearest-neighbor coordinate `c * n / m` is
/// `10 * c`.
proof fn lemma_unscaled_coordinate(c: int, m: int)
    requires
        0 <= c,
        1 <= m,
    ensures
        c * (10 * m) / m == 10 * c,
{
    assert(c * (10 * m) == m * (10 * c)) by (nonlinear_arith);
    lemma_div_multiples_vanish(10 * c, m);
}

/// Pixelation block uniformity: on dimensions that are multiples of 10, two
/// output pixels of the same 10 by 10 block hold identical channel values.
pub proof fn lemma_pixelate_blocks(
    w: int,
    h: int,
    s: Seq<Pixel>,
    x1: int,
    y1: int,
    x2: int,
    y2: int,
)
    requires
        w % 10 == 0,
        h % 10 == 0,
        10 <= w,
        10 <= h,
        0 <= x1 < w,
        0 <= y1 < h,
        0 <= x2 < w,
        0 <= y2 < h,
        x1 / 10 == x2 / 10,
        y1 / 10 == y2 / 10,
    ensures
        spec_pixelate(w, h, s)[y1 * w + x1] == spec_pixelate(w, h, s)[y2 * w + x2],
{
    lemma_pixelate_exact(w, h, s, x1, y1);
    lemma_pixelate_exact(w, h, s, x2, y2);
}

} // verus!

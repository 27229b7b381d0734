use crate::color::{
    apply_grayscale, apply_invert, apply_sepia, posterize_step, spec_grayscale, spec_invert,
    spec_posterize, spec_sepia,
};
use crate::convolve::{
    apply_emboss, apply_sharpen, spec_convolve, spec_emboss_kernel, spec_sharpen_kernel,
};
use crate::host::{blur5_of, blur_rgba, huerotate90_of, huerotate_rgba};
use crate::pixel::{lemma_quads_roundtrip, pixels_of_quads, quads, Pixel, PixelBuffer};
use crate::resample::{apply_pixelate, spec_pixelate};
use vstd::prelude::*;
use vstd::string::StrSliceExecFns;

verus! {

/// The closed set of filter operations, resolved once from the filter-name
/// token. Any unrecognized token maps to `Unknown`, which passes the buffer
/// through unchanged.
#[derive(Clone, Copy, PartialEq, Eq, Structural, Debug)]
pub enum FilterKind {
    Grayscale,
    Blur,
    Huerotate,
    Invert,
    Sepia,
    Pixelate,
    Emboss,
    Sharpen,
    Posterize,
    Unknown,
}

/// The filter kind a name token resolves to; matching is case-sensitive and
/// exact.
pub open spec fn spec_parse_filter(s: Seq<char>) -> FilterKind {
    if s == "grayscale"@ {
        FilterKind::Grayscale
    } else if s == "blur"@ {
        FilterKind::Blur
    } else if s == "huerotate"@ {
        FilterKind::Huerotate
    } else if s == "invert"@ {
        FilterKind::Invert
    } else if s == "sepia"@ {
        FilterKind::Sepia
    } else if s == "pixelate"@ {
        FilterKind::Pixelate
    } else if s == "emboss"@ {
        FilterKind::Emboss
    } else if s == "sharpen"@ {
        FilterKind::Sharpen
    } else if s == "posterize"@ {
        FilterKind::Posterize
    } else {
        FilterKind::Unknown
    }
}

/// Whether two string slices hold exactly the same characters.
fn str_eq(a: &str, b: &str) -> (r: bool)
    ensures
        r == (a@ == b@),
{
    let na = a.unicode_len();
    let nb = b.unicode_len();
    if na != nb {
        return false;
    }
    let mut i: usize = 0;
    while i < na
        invariant
            na == a@.len(),
            na == b@.len(),
            i <= na,
            forall|j: int| 0 <= j < i ==> a@[j] == b@[j],
        decreases na - i,
    {
        let ca = a.get_char(i);
        let cb = b.get_char(i);
        if ca != cb {
            return false;
        }
        i = i + 1;
    }
    proof {
        assert(a@ =~= b@);
    }
    true
}

/// Resolve a filter-name token to its filter kind.
pub fn parse_filter(name: &str) -> (k: FilterKind)
    ensures
        k == spec_parse_filter(name@),
{
    if str_eq(name, "grayscale") {
        FilterKind::Grayscale
    } else if str_eq(name, "blur") {
        FilterKind::Blur
    } else if str_eq(name, "huerotate") {
        FilterKind::Huerotate
    } else if str_eq(name, "invert") {
        FilterKind::Invert
    } else if str_eq(name, "sepia") {
        FilterKind::Sepia
    } else if str_eq(name, "pixelate") {
        FilterKind::Pixelate
    } else if str_eq(name, "emboss") {
        FilterKind::Emboss
    } else if str_eq(name, "sharpen") {
        FilterKind::Sharpen
    } else if str_eq(name, "posterize") {
        FilterKind::Posterize
    } else {
        FilterKind::Unknown
    }
}

/// What each filter kind produces on the pixels of a `w` by `h` buffer.
/// The blur and hue-rotation filters delegate to the image library and are
/// described by the names of their results; every other kind is defined
/// exactly. Pixelation of a buffer with a zero dimension, which has no
/// pixels, passes through.
pub open spec fn spec_run_filter(w: usize, h: usize, s: Seq<Pixel>, k: FilterKind) -> Seq<Pixel> {
    match k {
        FilterKind::Grayscale => spec_grayscale(s),
        FilterKind::Blur => pixels_of_quads(blur5_of(w, h, quads(s))),
        FilterKind::Huerotate => pixels_of_quads(huerotate90_of(w, h, quads(s))),
        FilterKind::Invert => spec_invert(s),
        FilterKind::Sepia => spec_sepia(s),
        FilterKind::Pixelate => if w >= 1 && h >= 1 {
            spec_pixelate(w as int, h as int, s)
        } else {
            s
        },
        FilterKind::Emboss => spec_convolve(w as int, h as int, s, spec_emboss_kernel()),
        FilterKind::Sharpen => spec_convolve(w as int, h as int, s, spec_sharpen_kernel()),
        FilterKind::Posterize => spec_posterize(s, 85),
        FilterKind::Unknown => s,
    }
}

/// Apply the chosen filter to the buffer. Every filter preserves the
/// buffer's dimensions, and an unrecognized name returns the buffer
/// unchanged. The posterize filter is exposed with four levels per channel,
/// so its step is 255 / 3 = 85.
pub fn run_filter(src: PixelBuffer, kind: FilterKind) -> (out: PixelBuffer)
    requires
        src.wf(),
        src.width <= u32::MAX as usize,
        src.height <= u32::MAX as usize,
    ensures
        out.wf(),
        out.width == src.width,
        out.height == src.height,
        out.data@ == spec_run_filter(src.width, src.height, src.data@, kind),
{
    match kind {
        FilterKind::Grayscale => apply_grayscale(&src),
        FilterKind::Blur => {
            let out = blur_rgba(&src);
            proof {
                lemma_quads_roundtrip(out.data@);
            }
            out
        },
        FilterKind::Huerotate => {
            let out = huerotate_rgba(&src);
            proof {
                lemma_quads_roundtrip(out.data@);
            }
            out
        },
        FilterKind::Invert => apply_invert(&src),
        FilterKind::Sepia => apply_sepia(&src),
        FilterKind::Pixelate => apply_pixelate(&src),
        FilterKind::Emboss => apply_emboss(&src),
        FilterKind::Sharpen => apply_sharpen(&src),
        FilterKind::Posterize => posterize_step(&src, 85),
        FilterKind::Unknown => src,
    }
}

} // verus!

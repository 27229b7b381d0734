use vstd::arithmetic::div_mod::lemma_fundamental_div_mod_converse;
use vstd::prelude::*;

verus! {

/// One RGBA pixel: four independent 8-bit channels.
#[derive(Clone, Copy, PartialEq, Eq, Structural, Debug)]
pub struct Pixel {
    pub r: u8,
    pub g: u8,
    pub b: u8,
    pub a: u8,
}

/// Fully transparent black, the default value of a freshly allocated buffer.
pub open spec fn zero_pixel() -> Pixel {
    Pixel { r: 0, g: 0, b: 0, a: 0 }
}

/// A pixel's channel by position: 0 is red, 1 is green, 2 is blue, 3 is alpha.
pub open spec fn chan(p: Pixel, c: int) -> u8 {
    if c == 0 {
        p.r
    } else if c == 1 {
        p.g
    } else if c == 2 {
        p.b
    } else {
        p.a
    }
}

/// A pixel as a plain channel quadruple (red, green, blue, alpha).
pub open spec fn quad_of(p: Pixel) -> (u8, u8, u8, u8) {
    (p.r, p.g, p.b, p.a)
}

/// A channel quadruple read back as a pixel.
pub open spec fn pixel_of(q: (u8, u8, u8, u8)) -> Pixel {
    Pixel { r: q.0, g: q.1, b: q.2, a: q.3 }
}

/// A pixel sequence as a sequence of plain channel quadruples.
pub open spec fn quads(s: Seq<Pixel>) -> Seq<(u8, u8, u8, u8)> {
    s.map_values(|p: Pixel| quad_of(p))
}

/// A sequence of channel quadruples read back as pixels.
pub open spec fn pixels_of_quads(q: Seq<(u8, u8, u8, u8)>) -> Seq<Pixel> {
    q.map_values(|t: (u8, u8, u8, u8)| pixel_of(t))
}

/// Reading a pixel sequence out as quadruples and back loses nothing.
pub proof fn lemma_quads_roundtrip(s: Seq<Pixel>)
    ensures
        pixels_of_quads(quads(s)) == s,
{
    assert(pixels_of_quads(quads(s)) =~= s);
}

/// The pixel of a row-major sequence of width `w` at column `x`, row `y`.
pub open spec fn pix_at(s: Seq<Pixel>, w: int, x: int, y: int) -> Pixel {
    s[y * w + x]
}

/// A row-major index is in range, and decomposes back into its column and row.
pub proof fn lemma_row_major(w: int, h: int, x: int, y: int)
    requires
        0 <= x < w,
        0 <= y < h,
    ensures
        0 <= y * w + x < w * h,
        (y * w + x) % w == x,
        (y * w + x) / w == y,
{
    assert(0 <= y * w + x < w * h) by (nonlinear_arith)
        requires
            0 <= x < w,
            0 <= y < h,
    ;
    lemma_fundamental_div_mod_converse(y * w + x, w, y, x);
}

/// The canonical in-memory image: a `width` by `height` grid of RGBA pixels,
/// stored row-major, so that the pixel at column `x`, row `y` sits at index
/// `y * width + x`.
pub struct PixelBuffer {
    pub width: usize,
    pub height: usize,
    pub data: Vec<Pixel>,
}

impl PixelBuffer {
    /// The structural invariant: the pixel store covers the grid exactly.
    pub open spec fn wf(&self) -> bool {
        self.data@.len() == (self.width as int) * (self.height as int)
    }

    /// The pixel at column `x`, row `y`.
    pub open spec fn spec_pix(&self, x: int, y: int) -> Pixel {
        pix_at(self.data@, self.width as int, x, y)
    }

    /// Allocate a blank buffer of the given dimensions, every channel of
    /// every pixel zero (fully transparent black).
    pub fn new_blank(width: usize, height: usize) -> (out: PixelBuffer)
        requires
            (width as int) * (height as int) <= usize::MAX,
        ensures
            out.wf(),
            out.width == width,
            out.height == height,
            out.data@ == Seq::new((width as int * height as int) as nat, |i: int| zero_pixel()),
    {
        let n: usize = width * height;
        let mut data: Vec<Pixel> = Vec::new();
        let mut i: usize = 0;
        while i < n
            invariant
                i <= n,
                data@.len() == i,
                forall|j: int| 0 <= j < i ==> data@[j] == zero_pixel(),
            decreases n - i,
        {
            data.push(Pixel { r: 0, g: 0, b: 0, a: 0 });
            i = i + 1;
        }
        let out = PixelBuffer { width, height, data };
        proof {
            assert(out.data@ =~= Seq::new((width as int * height as int) as nat, |i: int| zero_pixel()));
        }
        out
    }

    /// Read the pixel at column `x`, row `y`.
    pub fn get(&self, x: usize, y: usize) -> (p: Pixel)
        requires
            self.wf(),
            x < self.width,
            y < self.height,
        ensures
            p == self.spec_pix(x as int, y as int),
    {
        let n = self.data.len();
        proof {
            lemma_row_major(self.width as int, self.height as int, x as int, y as int);
            assert(y * self.width + x < n);
        }
        self.data[y * self.width + x]
    }

    /// Overwrite the pixel at column `x`, row `y`.
    pub fn set(&mut self, x: usize, y: usize, p: Pixel)
        requires
            old(self).wf(),
            x < old(self).width,
            y < old(self).height,
        ensures
            final(self).wf(),
            final(self).width == old(self).width,
            final(self).height == old(self).height,
            final(self).data@ == old(self).data@.update(
                (y as int) * (old(self).width as int) + x as int,
                p,
            ),
    {
        let n = self.data.len();
        proof {
            lemma_row_major(self.width as int, self.height as int, x as int, y as int);
            assert(y * self.width + x < n);
        }
        let idx: usize = y * self.width + x;
        self.data[idx] = p;
    }
}

} // verus!

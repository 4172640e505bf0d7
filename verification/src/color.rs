//! Colours with eight bits per channel, and the integer colour arithmetic
//! that glyph masks are normalised and pre-blended with.

use vstd::prelude::*;

verus! {

/// Width of one quantisation step of a colour channel. The three leading
/// bits of a channel tell its step; colours in one step are told apart
/// neither by the gamma tables nor by the glyph cache.
pub const LUM_STEP: u8 = 32;

/// An RGBA colour, eight bits per channel.
#[derive(Clone, Copy, Debug, PartialEq, Eq, Structural, Hash)]
pub struct ColorU {
    pub r: u8,
    pub g: u8,
    pub b: u8,
    pub a: u8,
}

/// Perceived brightness of a colour: the Rec. 709 weights
/// `0.2126 r + 0.7152 g + 0.0722 b`, in sixteen-bit fixed point, rounded to
/// the nearest integer. The three weights add up to `65536`.
pub open spec fn luminance(r: u8, g: u8, b: u8) -> u8 {
    ((r as int * 13933 + g as int * 46871 + b as int * 4732 + 32768) / 65536) as u8
}

/// A channel rounded down to the start of its quantisation step.
pub open spec fn quantized(x: u8) -> u8 {
    (x - x % 32) as u8
}

/// Computes `luminance(r, g, b)`.
pub fn compute_luminance(r: u8, g: u8, b: u8) -> (l: u8)
    ensures
        l == luminance(r, g, b),
{
    let val: u32 = r as u32 * 13933 + g as u32 * 46871 + b as u32 * 4732;
    let rounded: u32 = (val + 32768) / 65536;
    assert(rounded <= 255);
    rounded as u8
}

/// Computes `quantized(x)`.
pub fn quantize_channel(x: u8) -> (q: u8)
    ensures
        q == quantized(x),
{
    x - x % LUM_STEP
}

impl ColorU {
    pub open spec fn white() -> ColorU {
        ColorU { r: 255, g: 255, b: 255, a: 255 }
    }

    pub open spec fn black() -> ColorU {
        ColorU { r: 0, g: 0, b: 0, a: 255 }
    }

    pub open spec fn transparent() -> ColorU {
        ColorU { r: 0, g: 0, b: 0, a: 0 }
    }

    /// The gray of the same brightness, with the alpha kept.
    pub open spec fn spec_luminance_color(self) -> ColorU {
        let l = luminance(self.r, self.g, self.b);
        ColorU { r: l, g: l, b: l, a: self.a }
    }

    /// Each colour channel rounded down to its quantisation step, opaque.
    pub open spec fn spec_quantize(self) -> ColorU {
        ColorU { r: quantized(self.r), g: quantized(self.g), b: quantized(self.b), a: 255 }
    }

    pub fn new(r: u8, g: u8, b: u8, a: u8) -> (c: ColorU)
        ensures
            c == (ColorU { r, g, b, a }),
    {
        ColorU { r, g, b, a }
    }

    /// Brightness of the colour; the alpha channel plays no part.
    pub fn luminance(&self) -> (l: u8)
        ensures
            l == luminance(self.r, self.g, self.b),
    {
        compute_luminance(self.r, self.g, self.b)
    }

    pub fn luminance_color(&self) -> (c: ColorU)
        ensures
            c == self.spec_luminance_color(),
    {
        let l = self.luminance();
        ColorU { r: l, g: l, b: l, a: self.a }
    }

    /// The canonical colour that stands for every colour selecting the same
    /// gamma tables.
    pub fn quantize(&self) -> (c: ColorU)
        ensures
            c == self.spec_quantize(),
    {
        ColorU {
            r: quantize_channel(self.r),
            g: quantize_channel(self.g),
            b: quantize_channel(self.b),
            a: 255,
        }
    }
}

/// A gray has its own level as brightness.
pub proof fn lemma_luminance_of_gray(l: u8)
    ensures
        luminance(l, l, l) == l,
{
    assert(l as int * 13933 + l as int * 46871 + l as int * 4732 == l as int * 65536);
}

/// Quantising twice is quantising once, and a quantised colour stays in the
/// step of the colour it came from.
pub proof fn lemma_quantized_idempotent(x: u8)
    ensures
        quantized(quantized(x)) == quantized(x),
        quantized(x) <= x,
        x - quantized(x) < 32,
        quantized(x) / 32 == x / 32,
{
}

} // verus!

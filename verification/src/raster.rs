//! From a drawn surface to a finished glyph.
//!
//! An outline glyph is drawn in black on an opaque white ground. What the
//! compositor wants is the opposite, white text on transparency, so the
//! colour channels are inverted and an alpha is made up from the green
//! channel. Where font smoothing was on, the inversion happens in linear
//! space and the result is pre-blended for the text colour.

use vstd::prelude::*;
use crate::color::ColorU;
use crate::gamma::{linearized, preblended, preblended_grayscale, GammaLut};
use crate::instance::{FontInstance, FontRenderMode, GlyphFormat, GlyphType};
use crate::metrics::{GlyphMetrics, Size};
use crate::surface::Acquired;

verus! {

/// How the drawing surface is set up before a glyph is drawn.
#[derive(Clone, Copy, Debug, PartialEq, Eq, Structural, Hash)]
pub struct DrawState {
    /// Glyphs are placed at fractions of a pixel; always on.
    pub subpixel_position: bool,
    /// The drawing service snaps glyph positions itself; always off, the
    /// positions it is given are quantised already.
    pub subpixel_quantize: bool,
    pub antialias: bool,
    pub smooth: bool,
    /// The colour the glyph is filled with; its alpha is not used.
    pub text_color: ColorU,
    /// The colour the glyph's rectangle is cleared to, without blending.
    pub bg_color: ColorU,
}

/// Why no glyph was produced.
#[derive(Clone, Copy, Debug, PartialEq, Eq, Structural, Hash)]
pub enum GlyphRasterError {
    /// The font is not registered, or the glyph has no extent.
    LoadFailed,
}

/// By how much a finished glyph has to be scaled when it is shown.
#[derive(Clone, Copy, Debug, PartialEq, Eq, Structural, Hash)]
pub enum GlyphScale {
    /// Not at all: the glyph was drawn at its size on the device.
    One,
    /// By the reciprocal of the vertical scale of the instance's transform:
    /// the glyph was drawn at the bitmap's own size.
    InverseVerticalScale,
}

/// A finished glyph: a rectangle of four-byte pixels (blue, green, red,
/// alpha) and its placement.
#[derive(Clone, Debug, PartialEq, Eq)]
pub struct RasterizedGlyph {
    pub left: i32,
    pub top: i32,
    pub width: i32,
    pub height: i32,
    pub scale: GlyphScale,
    pub format: GlyphFormat,
    pub bytes: Vec<u8>,
}

/// A finished glyph as contracts speak of it: its bytes as a sequence.
pub struct RasterizedGlyphView {
    pub left: i32,
    pub top: i32,
    pub width: i32,
    pub height: i32,
    pub scale: GlyphScale,
    pub format: GlyphFormat,
    pub bytes: Seq<u8>,
}

impl View for RasterizedGlyph {
    type V = RasterizedGlyphView;

    open spec fn view(&self) -> RasterizedGlyphView {
        RasterizedGlyphView {
            left: self.left,
            top: self.top,
            width: self.width,
            height: self.height,
            scale: self.scale,
            format: self.format,
            bytes: self.bytes@,
        }
    }
}

pub type GlyphRasterResult = Result<RasterizedGlyph, GlyphRasterError>;

/// What has to be done to draw a glyph.
#[derive(Clone, Copy, Debug, PartialEq, Eq, Structural, Hash)]
pub struct GlyphPlan {
    pub glyph_type: GlyphType,
    pub metrics: GlyphMetrics,
    /// The extent of the glyph's rectangle.
    pub raster_size: Size,
    /// The surface to draw into, and whether it must be created first.
    pub surface: Acquired,
    pub draw: DrawState,
    /// Where the glyph's origin lies in the surface, counted in pixels from
    /// the left and from the bottom of the glyph's rectangle, before any
    /// fraction of a pixel is added to it.
    pub origin_x: i64,
    pub origin_y: i64,
}

/// The drawing state for a glyph.
///
/// A bitmap glyph is drawn anti-aliased but unsmoothed, in the instance's
/// colour on transparency. An outline is drawn in black on white: smoothed
/// in `Subpixel` mode and in `Alpha` mode with the smoothing flag, merely
/// anti-aliased in `Alpha` mode without it, and with neither in `Mono` mode.
pub open spec fn draw_state_for(
    glyph_type: GlyphType,
    render_mode: FontRenderMode,
    font_smoothing: bool,
    color: ColorU,
) -> DrawState {
    match glyph_type {
        GlyphType::Bitmap => DrawState {
            subpixel_position: true,
            subpixel_quantize: false,
            antialias: true,
            smooth: false,
            text_color: color,
            bg_color: ColorU::transparent(),
        },
        GlyphType::Vector => DrawState {
            subpixel_position: true,
            subpixel_quantize: false,
            antialias: render_mode != FontRenderMode::Mono,
            smooth: render_mode == FontRenderMode::Subpixel || (render_mode
                == FontRenderMode::Alpha && font_smoothing),
            text_color: ColorU::black(),
            bg_color: ColorU::white(),
        },
    }
}

/// A buffer with the colour channels of every pixel inverted, and the alpha
/// set to the inverted green.
pub open spec fn inverted(pixels: Seq<u8>) -> Seq<u8> {
    Seq::new(
        pixels.len(),
        |i: int|
            if i % 4 == 3 {
                (255 - pixels[i - 2]) as u8
            } else {
                (255 - pixels[i]) as u8
            },
    )
}

/// The text colour as a smoothed glyph shows it. Smoothing dilates glyphs,
/// which is made up for by darkening the colour that the mask is pre-blended
/// for: to three quarters for a `Subpixel` mask, to a half for an `Alpha`
/// mask. Both factors are calibrated to the host's rasteriser, not derived.
/// A `Mono` mask is not pre-blended, and its colour is left alone.
pub open spec fn smoothed_color(color: ColorU, render_mode: FontRenderMode) -> ColorU {
    match render_mode {
        FontRenderMode::Subpixel => ColorU {
            r: (color.r - color.r / 4) as u8,
            g: (color.g - color.g / 4) as u8,
            b: (color.b - color.b / 4) as u8,
            a: color.a,
        },
        FontRenderMode::Alpha => ColorU {
            r: color.r / 2,
            g: color.g / 2,
            b: color.b / 2,
            a: color.a,
        },
        FontRenderMode::Mono => color,
    }
}

/// A linear mask brought back to device space and pre-blended for text of
/// the given colour: as one grayscale value in `Alpha` mode, per channel in
/// `Subpixel` mode, not at all in `Mono` mode.
pub open spec fn gamma_corrected(
    pixels: Seq<u8>,
    lut: GammaLut,
    render_mode: FontRenderMode,
    color: ColorU,
) -> Seq<u8> {
    let smooth_color = smoothed_color(color, render_mode);
    match render_mode {
        FontRenderMode::Alpha => preblended_grayscale(pixels, lut.table_for(smooth_color.g)),
        FontRenderMode::Subpixel => preblended(
            pixels,
            lut.table_for(smooth_color.r),
            lut.table_for(smooth_color.g),
            lut.table_for(smooth_color.b),
        ),
        FontRenderMode::Mono => pixels,
    }
}

/// What becomes of the pixels read back from the surface. A bitmap glyph is
/// left as drawn. An outline is inverted into a mask; where it was drawn
/// smoothed, it is taken to linear space before, and gamma-corrected for the
/// text colour after.
pub open spec fn post_processed(
    pixels: Seq<u8>,
    glyph_type: GlyphType,
    smooth: bool,
    lut: GammaLut,
    render_mode: FontRenderMode,
    color: ColorU,
) -> Seq<u8> {
    match glyph_type {
        GlyphType::Bitmap => pixels,
        GlyphType::Vector => if smooth {
            gamma_corrected(
                inverted(linearized(pixels, lut.to_linear())),
                lut,
                render_mode,
                color,
            )
        } else {
            inverted(pixels)
        },
    }
}

/// Chooses the drawing state for glyphs of a font instance.
pub fn draw_state(font: &FontInstance) -> (state: DrawState)
    ensures
        state == draw_state_for(
            font.spec_glyph_type(),
            font.render_mode,
            font.flags.font_smoothing,
            font.color,
        ),
{
    let use_font_smoothing = font.flags.font_smoothing;
    let (antialias, smooth, text_color, bg_color) = match font.glyph_type() {
        GlyphType::Bitmap => (true, false, font.color, ColorU::new(0, 0, 0, 0)),
        GlyphType::Vector => match (font.render_mode, use_font_smoothing) {
            (FontRenderMode::Subpixel, _) | (FontRenderMode::Alpha, true) => (
                true,
                true,
                ColorU::new(0, 0, 0, 255),
                ColorU::new(255, 255, 255, 255),
            ),
            (FontRenderMode::Alpha, false) => (
                true,
                false,
                ColorU::new(0, 0, 0, 255),
                ColorU::new(255, 255, 255, 255),
            ),
            (FontRenderMode::Mono, _) => (
                false,
                false,
                ColorU::new(0, 0, 0, 255),
                ColorU::new(255, 255, 255, 255),
            ),
        },
    };
    DrawState {
        subpixel_position: true,
        subpixel_quantize: false,
        antialias,
        smooth,
        text_color,
        bg_color,
    }
}

/// Turns black ink on white into a white mask: inverts the colour channels
/// of every pixel and sets its alpha to the inverted green. What the alpha
/// bytes held before plays no part.
pub fn invert_to_mask(pixels: &mut Vec<u8>)
    requires
        old(pixels)@.len() % 4 == 0,
    ensures
        final(pixels)@ == inverted(old(pixels)@),
{
    let ghost before = pixels@;
    let count: usize = pixels.len() / 4;
    let mut k: usize = 0;
    while k < count
        invariant
            k <= count,
            pixels@.len() == before.len(),
            pixels.len() == 4 * count,
            forall|i: int| 0 <= i < 4 * k ==> pixels@[i] == #[trigger] inverted(before)[i],
            forall|i: int| 4 * k <= i < before.len() ==> #[trigger] pixels@[i] == before[i],
        decreases count - k,
    {
        let at: usize = 4 * k;
        let b: u8 = 255 - pixels[at];
        let g: u8 = 255 - pixels[at + 1];
        let r: u8 = 255 - pixels[at + 2];
        pixels[at] = b;
        pixels[at + 1] = g;
        pixels[at + 2] = r;
        pixels[at + 3] = g;
        k += 1;
    }
    assert(pixels@ =~= inverted(before));
}

/// Computes `smoothed_color`.
pub fn smooth_color(color: ColorU, render_mode: FontRenderMode) -> (c: ColorU)
    ensures
        c == smoothed_color(color, render_mode),
{
    let ColorU { r, g, b, a } = color;
    match render_mode {
        FontRenderMode::Subpixel => ColorU::new(r - r / 4, g - g / 4, b - b / 4, a),
        FontRenderMode::Alpha => ColorU::new(r / 2, g / 2, b / 2, a),
        FontRenderMode::Mono => color,
    }
}

/// Brings a linear mask back to device space, pre-blended for text of the
/// given colour.
pub fn gamma_correct_pixels(
    lut: &GammaLut,
    pixels: &mut Vec<u8>,
    render_mode: FontRenderMode,
    color: ColorU,
)
    requires
        lut.wf(),
        old(pixels)@.len() % 4 == 0,
    ensures
        final(pixels)@ == gamma_corrected(old(pixels)@, *lut, render_mode, color),
{
    let smooth_color = smooth_color(color, render_mode);
    match render_mode {
        FontRenderMode::Alpha => {
            lut.preblend_grayscale(pixels, smooth_color);
        },
        FontRenderMode::Subpixel => {
            lut.preblend(pixels, smooth_color);
        },
        FontRenderMode::Mono => {},
    }
}

/// Turns the pixels read back from the surface into the glyph's bytes.
pub fn post_process(
    pixels: &mut Vec<u8>,
    glyph_type: GlyphType,
    smooth: bool,
    lut: &GammaLut,
    render_mode: FontRenderMode,
    color: ColorU,
)
    requires
        lut.wf(),
        old(pixels)@.len() % 4 == 0,
    ensures
        final(pixels)@ == post_processed(
            old(pixels)@,
            glyph_type,
            smooth,
            *lut,
            render_mode,
            color,
        ),
        final(pixels)@.len() == old(pixels)@.len(),
{
    match glyph_type {
        GlyphType::Bitmap => {},
        GlyphType::Vector => {
            if smooth {
                lut.convert_to_linear(pixels);
            }
            invert_to_mask(pixels);
            if smooth {
                gamma_correct_pixels(lut, pixels, render_mode, color);
            }
        },
    }
}

/// Full coverage without smoothing. A pixel that the ink covers wholly is
/// drawn black; in a mask made without smoothing it comes out with all four
/// bytes at 255, whatever the alpha byte held.
pub proof fn lemma_full_coverage_unsmoothed(
    pixels: Seq<u8>,
    lut: GammaLut,
    render_mode: FontRenderMode,
    color: ColorU,
    k: int,
)
    requires
        0 <= k,
        4 * k + 3 < pixels.len(),
        pixels[4 * k] == 0,
        pixels[4 * k + 1] == 0,
        pixels[4 * k + 2] == 0,
    ensures
        ({
            let mask = post_processed(pixels, GlyphType::Vector, false, lut, render_mode, color);
            &&& mask[4 * k] == 255
            &&& mask[4 * k + 1] == 255
            &&& mask[4 * k + 2] == 255
            &&& mask[4 * k + 3] == 255
        }),
{
}

/// Full coverage with smoothing. A wholly covered pixel of a smoothed mask
/// comes out with an alpha of 255, in every render mode and for every text
/// colour: the tables of a well-formed lookup lose nothing at full coverage.
pub proof fn lemma_full_coverage_smoothed(
    pixels: Seq<u8>,
    lut: GammaLut,
    render_mode: FontRenderMode,
    color: ColorU,
    k: int,
)
    requires
        lut.wf(),
        0 <= k,
        4 * k + 3 < pixels.len(),
        pixels[4 * k] == 0,
        pixels[4 * k + 1] == 0,
        pixels[4 * k + 2] == 0,
    ensures
        post_processed(pixels, GlyphType::Vector, true, lut, render_mode, color)[4 * k + 3]
            == 255,
{
    lut.lemma_wf();
    let linear = linearized(pixels, lut.to_linear());
    let mask = inverted(linear);
    assert(linear[4 * k] == 0 && linear[4 * k + 1] == 0 && linear[4 * k + 2] == 0);
    assert(mask[4 * k] == 255 && mask[4 * k + 1] == 255 && mask[4 * k + 2] == 255);
    assert((4 * k + 3) - (4 * k + 3) % 4 == 4 * k);
    assert(crate::color::luminance(255, 255, 255) == 255) by {
        crate::color::lemma_luminance_of_gray(255);
    }
    assert(mask[4 * k + 3 - 2] == 255);
}

} // verus!

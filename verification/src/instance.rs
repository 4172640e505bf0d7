//! What a caller says about the text it wants drawn: which font, at which
//! size, in which rendering mode and colour, and how those settings are
//! normalised before any glyph is drawn.

use vstd::prelude::*;
use crate::color::{lemma_luminance_of_gray, lemma_quantized_idempotent, ColorU};

verus! {

/// Identity of a loaded font: a namespace and a number within it.
#[derive(Clone, Copy, Debug, PartialEq, Eq, Structural, Hash)]
pub struct FontKey(pub u32, pub u32);

/// A font size in pixels, quantised to whole multiples of `1/65536` pixel.
#[derive(Clone, Copy, Debug, PartialEq, Eq, Structural, Hash)]
pub struct FontSize(pub u32);

/// One requested setting of a variable font: an axis tag and a coordinate on
/// that axis. Coordinates are integers in a unit of the caller's choice, the
/// same for requests and for the axis ranges they are held against.
#[derive(Clone, Copy, Debug, PartialEq, Eq, Structural, Hash)]
pub struct FontVariation {
    pub tag: u32,
    pub value: i32,
}

/// How much anti-aliasing a glyph mask carries.
#[derive(Clone, Copy, Debug, PartialEq, Eq, Structural, Hash)]
pub enum FontRenderMode {
    /// One bit of coverage per pixel.
    Mono,
    /// One coverage value per pixel.
    Alpha,
    /// One coverage value per colour channel.
    Subpixel,
}

/// What the host delivers when font smoothing is requested.
#[derive(Clone, Copy, Debug, PartialEq, Eq, Structural, Hash)]
pub enum SmoothingMode {
    /// Smoothing has no observable effect.
    Off,
    /// Smoothing dilates glyphs but all colour channels agree.
    AlphaOnly,
    /// Smoothing gives per-channel coverage.
    SubpixelCapable,
}

/// Which of the two kinds of glyph a font instance yields.
#[derive(Clone, Copy, Debug, PartialEq, Eq, Structural, Hash)]
pub enum GlyphType {
    /// An outline, drawn in black on white and turned into a mask.
    Vector,
    /// An embedded colour bitmap, drawn as it is.
    Bitmap,
}

/// What the bytes of a finished glyph mean.
#[derive(Clone, Copy, Debug, PartialEq, Eq, Structural, Hash)]
pub enum GlyphFormat {
    Alpha,
    Subpixel,
    ColorBitmap,
}

/// The rendering flags of a font instance.
#[derive(Clone, Copy, Debug, PartialEq, Eq, Structural, Hash)]
pub struct FontInstanceFlags {
    pub flip_x: bool,
    pub flip_y: bool,
    pub transpose: bool,
    pub font_smoothing: bool,
    pub embedded_bitmaps: bool,
    pub synthetic_bold: bool,
    pub multistrike_bold: bool,
    pub subpixel_position_disabled: bool,
}

/// A slant applied to upright outlines, in 1/256 of a degree; zero for none.
#[derive(Clone, Copy, Debug, PartialEq, Eq, Structural, Hash)]
pub struct SyntheticItalics {
    pub angle: i16,
}

/// One configuration of a font for a run of text.
#[derive(Clone, Debug, PartialEq, Eq, Hash)]
pub struct FontInstance {
    pub font_key: FontKey,
    /// The size on the device: the nominal size times the vertical scale of
    /// the instance's transform.
    pub transformed_size: FontSize,
    pub render_mode: FontRenderMode,
    pub flags: FontInstanceFlags,
    pub synthetic_italics: SyntheticItalics,
    pub color: ColorU,
    pub variations: Vec<FontVariation>,
}

impl FontRenderMode {
    /// Position in the order `Mono < Alpha < Subpixel`.
    pub open spec fn rank(self) -> int {
        match self {
            FontRenderMode::Mono => 0,
            FontRenderMode::Alpha => 1,
            FontRenderMode::Subpixel => 2,
        }
    }

    /// The mode of the two with less anti-aliasing.
    pub open spec fn spec_limit_by(self, other: FontRenderMode) -> FontRenderMode {
        if self.rank() <= other.rank() {
            self
        } else {
            other
        }
    }

    /// Combines two modes so that the one with less anti-aliasing limits the
    /// result.
    pub fn limit_by(self, other: FontRenderMode) -> (r: FontRenderMode)
        ensures
            r == self.spec_limit_by(other),
            r.rank() <= self.rank(),
            r.rank() <= other.rank(),
            r == self || r == other,
    {
        match (self, other) {
            (FontRenderMode::Subpixel, _) | (_, FontRenderMode::Mono) => other,
            _ => self,
        }
    }
}

impl SmoothingMode {
    /// The most anti-aliasing that a smoothed glyph can carry on this host.
    /// Without smoothing that is plain grayscale.
    pub open spec fn spec_limit(self) -> FontRenderMode {
        match self {
            SmoothingMode::SubpixelCapable => FontRenderMode::Subpixel,
            _ => FontRenderMode::Alpha,
        }
    }

    pub fn limit(self) -> (r: FontRenderMode)
        ensures
            r == self.spec_limit(),
    {
        match self {
            SmoothingMode::SubpixelCapable => FontRenderMode::Subpixel,
            SmoothingMode::AlphaOnly => FontRenderMode::Alpha,
            SmoothingMode::Off => FontRenderMode::Alpha,
        }
    }
}

impl SyntheticItalics {
    pub fn is_enabled(&self) -> (r: bool)
        ensures
            r == (self.angle != 0),
    {
        self.angle != 0
    }
}

impl FontInstance {
    /// Fonts flagged as carrying embedded bitmaps yield bitmap glyphs, all
    /// others outlines.
    pub open spec fn spec_glyph_type(&self) -> GlyphType {
        if self.flags.embedded_bitmaps {
            GlyphType::Bitmap
        } else {
            GlyphType::Vector
        }
    }

    pub fn glyph_type(&self) -> (t: GlyphType)
        ensures
            t == self.spec_glyph_type(),
    {
        if self.flags.embedded_bitmaps {
            GlyphType::Bitmap
        } else {
            GlyphType::Vector
        }
    }

    /// The mask format of an outline glyph of this instance.
    pub open spec fn spec_glyph_format(&self) -> GlyphFormat {
        match self.render_mode {
            FontRenderMode::Subpixel => GlyphFormat::Subpixel,
            _ => GlyphFormat::Alpha,
        }
    }

    pub fn get_glyph_format(&self) -> (f: GlyphFormat)
        ensures
            f == self.spec_glyph_format(),
    {
        match self.render_mode {
            FontRenderMode::Mono | FontRenderMode::Alpha => GlyphFormat::Alpha,
            FontRenderMode::Subpixel => GlyphFormat::Subpixel,
        }
    }

    /// Whether glyphs of this instance are placed at fractions of a pixel:
    /// not where that is switched off, and never in `Mono` mode.
    pub fn use_subpixel_position(&self) -> (r: bool)
        ensures
            r == (!self.flags.subpixel_position_disabled && self.render_mode
                != FontRenderMode::Mono),
    {
        !self.flags.subpixel_position_disabled && !matches!(self.render_mode, FontRenderMode::Mono)
    }

    pub fn disable_subpixel_position(&mut self)
        ensures
            *final(self) == (FontInstance {
                flags: FontInstanceFlags {
                    subpixel_position_disabled: true,
                    ..old(self).flags
                },
                ..*old(self)
            }),
    {
        self.flags.subpixel_position_disabled = true;
    }

    /// The render mode and smoothing flag after the host's smoothing
    /// behaviour has been taken into account. Only an instance that asks for
    /// smoothing, by flag or by subpixel mode, is touched: its mode is limited
    /// to what the host delivers, and its flag says whether smoothing has any
    /// effect at all.
    pub open spec fn sanitized(self, smoothing: SmoothingMode) -> FontInstance {
        if self.flags.font_smoothing || self.render_mode == FontRenderMode::Subpixel {
            FontInstance {
                render_mode: self.render_mode.spec_limit_by(smoothing.spec_limit()),
                flags: FontInstanceFlags {
                    font_smoothing: smoothing != SmoothingMode::Off,
                    ..self.flags
                },
                ..self
            }
        } else {
            self
        }
    }

    /// The colour that stands for this instance's colour once its render mode
    /// is settled: white where the colour plays no part in the mask, else the
    /// quantised colour, reduced to its brightness for grayscale masks.
    pub open spec fn canonical_color(self) -> ColorU {
        match self.render_mode {
            FontRenderMode::Mono => ColorU::white(),
            FontRenderMode::Alpha => if self.flags.font_smoothing {
                self.color.spec_luminance_color().spec_quantize()
            } else {
                ColorU::white()
            },
            FontRenderMode::Subpixel => self.color.spec_quantize(),
        }
    }

    /// The instance as rasterisation wants it. A bitmap instance becomes
    /// `Mono` without subpixel positioning and keeps its colour. Any other
    /// instance is sanitised for the host's smoothing, gets its canonical
    /// colour, and loses subpixel positioning if it ends up `Mono`.
    pub open spec fn prepared(self, smoothing: SmoothingMode) -> FontInstance {
        if self.flags.embedded_bitmaps {
            FontInstance {
                render_mode: FontRenderMode::Mono,
                flags: FontInstanceFlags { subpixel_position_disabled: true, ..self.flags },
                ..self
            }
        } else {
            let s = self.sanitized(smoothing);
            FontInstance {
                color: s.canonical_color(),
                flags: FontInstanceFlags {
                    subpixel_position_disabled: s.flags.subpixel_position_disabled || s.render_mode
                        == FontRenderMode::Mono,
                    ..s.flags
                },
                ..s
            }
        }
    }

    /// Normalises the instance in place for a host with the given smoothing
    /// behaviour.
    pub fn prepare(&mut self, smoothing: SmoothingMode)
        ensures
            *final(self) == old(self).prepared(smoothing),
    {
        if self.flags.embedded_bitmaps {
            self.render_mode = FontRenderMode::Mono;
            self.disable_subpixel_position();
            return ;
        }
        if self.flags.font_smoothing || self.render_mode == FontRenderMode::Subpixel {
            match smoothing {
                SmoothingMode::Off => {
                    self.render_mode = self.render_mode.limit_by(FontRenderMode::Alpha);
                    self.flags.font_smoothing = false;
                },
                mode => {
                    self.render_mode = self.render_mode.limit_by(mode.limit());
                    self.flags.font_smoothing = true;
                },
            }
        }
        match self.render_mode {
            FontRenderMode::Mono => {
                self.color = ColorU::new(255, 255, 255, 255);
                self.disable_subpixel_position();
            },
            FontRenderMode::Alpha => {
                self.color = if self.flags.font_smoothing {
                    self.color.luminance_color().quantize()
                } else {
                    ColorU::new(255, 255, 255, 255)
                };
            },
            FontRenderMode::Subpixel => {
                self.color = self.color.quantize();
            },
        }
    }
}

/// Preparing an instance is idempotent: a prepared instance is its own
/// preparation.
pub proof fn lemma_prepare_idempotent(font: FontInstance, smoothing: SmoothingMode)
    ensures
        font.prepared(smoothing).prepared(smoothing) == font.prepared(smoothing),
{
    let once = font.prepared(smoothing);
    if !font.flags.embedded_bitmaps {
        let s = font.sanitized(smoothing);
        assert(once.sanitized(smoothing).render_mode == s.render_mode);
        assert(once.sanitized(smoothing).flags.font_smoothing == s.flags.font_smoothing);
        let l = crate::color::luminance(s.color.r, s.color.g, s.color.b);
        lemma_luminance_of_gray(crate::color::quantized(l));
        lemma_quantized_idempotent(l);
        lemma_quantized_idempotent(s.color.r);
        lemma_quantized_idempotent(s.color.g);
        lemma_quantized_idempotent(s.color.b);
    }
}

/// A prepared instance never asks for more anti-aliasing than the host
/// delivers, and a bitmap or `Mono` instance has subpixel positioning off.
pub proof fn lemma_prepared_within_host(font: FontInstance, smoothing: SmoothingMode)
    ensures
        ({
            let p = font.prepared(smoothing);
            &&& p.render_mode.rank() <= font.render_mode.rank() || font.flags.embedded_bitmaps
            &&& p.render_mode == FontRenderMode::Subpixel ==> smoothing
                == SmoothingMode::SubpixelCapable
            &&& p.flags.font_smoothing && !font.flags.embedded_bitmaps ==> smoothing
                != SmoothingMode::Off
            &&& p.render_mode == FontRenderMode::Mono ==> p.flags.subpixel_position_disabled
            &&& p.font_key == font.font_key
            &&& p.transformed_size == font.transformed_size
            &&& p.variations == font.variations
        }),
{
}

} // verus!

//! Glyph rasterisation planning and pixel post-processing for a native text
//! service: everything between a glyph request and the finished mask that can
//! be decided on integers and bytes.
//!
//! The native font and drawing services stay with the caller. The caller
//! loads fonts, measures glyphs and draws them; the [`FontContext`] keeps the
//! fonts, says which size to instantiate with which variation settings, how
//! large a surface to draw into and how to set it up, and turns the drawn
//! pixels into a glyph mask.

pub mod cache;
pub mod color;
pub mod context;
pub mod gamma;
pub mod instance;
pub mod metrics;
pub mod raster;
pub mod smoothing;
pub mod surface;
pub mod variations;

pub use crate::cache::FontLookup;
pub use crate::color::ColorU;
pub use crate::context::FontContext;
pub use crate::gamma::GammaLut;
pub use crate::instance::{
    FontInstance, FontInstanceFlags, FontKey, FontRenderMode, FontSize, FontVariation,
    GlyphFormat, GlyphType, SmoothingMode, SyntheticItalics,
};
pub use crate::metrics::{GlyphDimensions, GlyphMetrics, PixelBounds, Size};
pub use crate::raster::{
    DrawState, GlyphPlan, GlyphRasterError, GlyphRasterResult, GlyphScale, RasterizedGlyph,
};

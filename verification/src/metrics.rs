//! The pixel rectangle that a glyph is rasterised into.
//!
//! The font service measures a glyph's ink box in fractions of a pixel. Once
//! that box has been rounded outward to whole pixel edges, everything else is
//! integer work: one pixel of margin on every side for anti-aliasing, and the
//! position and extent of the resulting rectangle.

use vstd::prelude::*;

verus! {

/// The ink box of a glyph, rounded outward to pixel edges, in a coordinate
/// system whose origin is at the bottom left: `left` and `bottom` are rounded
/// down, `right` and `top` up.
#[derive(Clone, Copy, Debug, PartialEq, Eq, Structural, Hash)]
pub struct PixelBounds {
    pub left: i32,
    pub bottom: i32,
    pub right: i32,
    pub top: i32,
}

/// Where a glyph's pixels lie relative to its origin.
#[derive(Clone, Copy, Debug, PartialEq, Eq, Structural, Hash)]
pub struct GlyphMetrics {
    pub rasterized_left: i32,
    pub rasterized_descent: i32,
    pub rasterized_ascent: i32,
    pub rasterized_width: i32,
    pub rasterized_height: i32,
}

/// The placement of a glyph as callers see it.
#[derive(Clone, Copy, Debug, PartialEq, Eq, Structural, Hash)]
pub struct GlyphDimensions {
    pub left: i32,
    pub top: i32,
    pub width: i32,
    pub height: i32,
}

/// A width and a height in pixels.
#[derive(Clone, Copy, Debug, PartialEq, Eq, Structural, Hash)]
pub struct Size {
    pub width: u32,
    pub height: u32,
}

/// Margin, in pixels, kept free on every side of the ink box.
pub const OUTSET: i32 = 1;

impl PixelBounds {
    /// Whether the box, its margin and its extent can all be told in `i32`.
    pub open spec fn fits(self) -> bool {
        &&& i32::MIN < self.left
        &&& i32::MIN + 1 < self.bottom
        &&& self.right < i32::MAX
        &&& self.top < i32::MAX
        &&& i32::MIN <= self.right - self.left + 2 <= i32::MAX
        &&& i32::MIN <= self.top - self.bottom + 2 <= i32::MAX
    }

    /// Computes `fits`.
    pub fn check_fits(&self) -> (r: bool)
        ensures
            r == self.fits(),
    {
        let width: i64 = self.right as i64 - self.left as i64 + 2;
        let height: i64 = self.top as i64 - self.bottom as i64 + 2;
        i32::MIN < self.left && i32::MIN + 1 < self.bottom && self.right < i32::MAX && self.top
            < i32::MAX && -2147483648 <= width && width <= 2147483647 && -2147483648 <= height
            && height <= 2147483647
    }
}

impl GlyphMetrics {
    /// The metrics of a glyph that cannot be drawn.
    pub open spec fn zero() -> GlyphMetrics {
        GlyphMetrics {
            rasterized_left: 0,
            rasterized_descent: 0,
            rasterized_ascent: 0,
            rasterized_width: 0,
            rasterized_height: 0,
        }
    }

    /// The metrics of a glyph with the given rounded ink box; `None` stands
    /// for a glyph that the font service could not measure. Every edge moves
    /// outward by one pixel. The ascent is the top edge, the descent the
    /// bottom edge negated, the extent the distance between opposite edges.
    pub open spec fn of(bounds: Option<PixelBounds>) -> GlyphMetrics {
        match bounds {
            None => GlyphMetrics::zero(),
            Some(b) => GlyphMetrics {
                rasterized_left: (b.left - 1) as i32,
                rasterized_descent: (1 - b.bottom) as i32,
                rasterized_ascent: (b.top + 1) as i32,
                rasterized_width: (b.right - b.left + 2) as i32,
                rasterized_height: (b.top - b.bottom + 2) as i32,
            },
        }
    }

    /// Whether there is nothing to draw.
    pub open spec fn spec_is_empty(self) -> bool {
        self.rasterized_width == 0 || self.rasterized_height == 0
    }

    /// Whether the rectangle has pixels.
    pub open spec fn has_area(self) -> bool {
        self.rasterized_width > 0 && self.rasterized_height > 0
    }

    /// The extent of the rectangle as a surface size.
    pub open spec fn spec_raster_size(self) -> Size {
        Size { width: self.rasterized_width as u32, height: self.rasterized_height as u32 }
    }

    /// The placement that callers are told.
    pub open spec fn spec_dimensions(self) -> Option<GlyphDimensions> {
        if self.spec_is_empty() {
            None
        } else {
            Some(
                GlyphDimensions {
                    left: self.rasterized_left,
                    top: self.rasterized_ascent,
                    width: self.rasterized_width,
                    height: self.rasterized_height,
                },
            )
        }
    }

    /// Derives the metrics of a glyph from its rounded ink box.
    pub fn from_bounds(bounds: Option<PixelBounds>) -> (m: GlyphMetrics)
        requires
            bounds is Some ==> bounds->0.fits(),
        ensures
            m == GlyphMetrics::of(bounds),
            bounds is Some ==> m.rasterized_height == m.rasterized_ascent + m.rasterized_descent,
    {
        let b = match bounds {
            Some(b) => b,
            None => {
                return GlyphMetrics {
                    rasterized_left: 0,
                    rasterized_descent: 0,
                    rasterized_ascent: 0,
                    rasterized_width: 0,
                    rasterized_height: 0,
                };
            },
        };
        let left: i32 = b.left - OUTSET;
        let bottom: i32 = b.bottom - OUTSET;
        let right: i32 = b.right + OUTSET;
        let top: i32 = b.top + OUTSET;
        GlyphMetrics {
            rasterized_left: left,
            rasterized_descent: -bottom,
            rasterized_ascent: top,
            rasterized_width: right - left,
            rasterized_height: top - bottom,
        }
    }

    pub fn is_empty(&self) -> (r: bool)
        ensures
            r == self.spec_is_empty(),
    {
        self.rasterized_width == 0 || self.rasterized_height == 0
    }

    /// Computes `has_area`.
    pub fn check_has_area(&self) -> (r: bool)
        ensures
            r == self.has_area(),
    {
        self.rasterized_width > 0 && self.rasterized_height > 0
    }

    /// The size of the surface area that the glyph is drawn into.
    pub fn raster_size(&self) -> (s: Size)
        requires
            self.has_area(),
        ensures
            s == self.spec_raster_size(),
            s.width == self.rasterized_width,
            s.height == self.rasterized_height,
    {
        Size { width: self.rasterized_width as u32, height: self.rasterized_height as u32 }
    }

    /// The placement of the glyph, or `None` where there is nothing to draw.
    pub fn dimensions(&self) -> (d: Option<GlyphDimensions>)
        ensures
            d == self.spec_dimensions(),
    {
        if self.is_empty() {
            None
        } else {
            Some(
                GlyphDimensions {
                    left: self.rasterized_left,
                    top: self.rasterized_ascent,
                    width: self.rasterized_width,
                    height: self.rasterized_height,
                },
            )
        }
    }
}

/// An ink box whose edges are in order always leaves something to draw: the
/// margin alone makes the rectangle two pixels wide and high.
pub proof fn lemma_ordered_bounds_have_area(b: PixelBounds)
    requires
        b.fits(),
        b.left <= b.right,
        b.bottom <= b.top,
    ensures
        GlyphMetrics::of(Some(b)).has_area(),
        GlyphMetrics::of(Some(b)).rasterized_width >= 2,
        GlyphMetrics::of(Some(b)).rasterized_height >= 2,
        !GlyphMetrics::of(Some(b)).spec_is_empty(),
{
}

/// A glyph that could not be measured has nothing to draw.
pub proof fn lemma_unmeasured_is_empty()
    ensures
        GlyphMetrics::of(None).spec_is_empty(),
        GlyphMetrics::of(None).spec_dimensions() is None,
{
}

} // verus!

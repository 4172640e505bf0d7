//! The font context: the fonts a worker has loaded, the surfaces it draws
//! into, and the steps that turn a glyph request into a finished glyph.
//!
//! The context decides; it does not draw. A caller that owns the native font
//! and drawing services asks the context what to do, does it, and hands the
//! outcome back: the base object that parsing gave, the ink box that the
//! font service measured, the memory of the surface after the draw. Each
//! worker has a context of its own.

use vstd::prelude::*;
use crate::cache::{lookup_in, with_font, with_sized, without_font, FontCache, FontLookup, SizedKey};
use crate::color::ColorU;
use crate::gamma::GammaLut;
use crate::instance::{
    FontInstance,
    FontKey,
    FontRenderMode,
    FontSize,
    FontVariation,
    GlyphFormat,
    GlyphType,
    SmoothingMode,
};
use crate::metrics::{GlyphDimensions, GlyphMetrics, PixelBounds, Size};
use crate::raster::{
    draw_state,
    draw_state_for,
    gamma_corrected,
    lemma_full_coverage_smoothed,
    lemma_full_coverage_unsmoothed,
    post_process,
    post_processed,
    GlyphPlan,
    GlyphRasterError,
    GlyphRasterResult,
    GlyphScale,
    RasterizedGlyph,
    RasterizedGlyphView,
};
use crate::surface::{grown, read_back, SurfacePool};

verus! {

/// The size at which a font is asked for the glyph of a character:
/// sixteen pixels, in units of `1/65536` pixel.
pub const GLYPH_INDEX_SIZE: u32 = 1_048_576;

/// The fonts, surfaces and tables of one worker.
pub struct FontContext<B, S> {
    fonts: FontCache<B, S>,
    surfaces: SurfacePool,
    gamma_lut: GammaLut,
    font_smoothing_mode: SmoothingMode,
}

/// Whether nothing can be rasterised for a glyph with rounded ink box
/// `bounds` of the font under `font_key`, with these fonts registered: the
/// font is not among them, or the glyph has no extent.
pub open spec fn load_fails_with<B>(
    fonts: Map<FontKey, B>,
    font_key: FontKey,
    bounds: Option<PixelBounds>,
) -> bool {
    !fonts.contains_key(font_key) || GlyphMetrics::of(bounds).spec_is_empty()
}

/// The placement of a glyph with rounded ink box `bounds` of the font under
/// `font_key`, with these fonts registered: that of the glyph's metrics,
/// and none where the font is not among them or the glyph has no extent.
pub open spec fn dimensions_with<B>(
    fonts: Map<FontKey, B>,
    font_key: FontKey,
    bounds: Option<PixelBounds>,
) -> Option<GlyphDimensions> {
    if fonts.contains_key(font_key) {
        GlyphMetrics::of(bounds).spec_dimensions()
    } else {
        None
    }
}

/// The bytes of a glyph of `font` with rounded ink box `bounds`, given the
/// memory of the surface of size `pooled` that it was drawn into: the
/// glyph's rectangle, read back and post-processed.
pub open spec fn glyph_bytes_with(
    pooled: Size,
    lut: GammaLut,
    font: FontInstance,
    bounds: Option<PixelBounds>,
    surface: Seq<u8>,
) -> Seq<u8> {
    let glyph_type = font.spec_glyph_type();
    let draw = draw_state_for(glyph_type, font.render_mode, font.flags.font_smoothing, font.color);
    post_processed(
        read_back(surface, pooled, GlyphMetrics::of(bounds).spec_raster_size()),
        glyph_type,
        draw.smooth,
        lut,
        font.render_mode,
        font.color,
    )
}

/// What rasterising a glyph of `font` with rounded ink box `bounds` gives,
/// with these fonts registered, from the memory of the surface of size
/// `pooled` that the glyph was drawn into. The load fails where the font is
/// not registered or the glyph has no extent. Otherwise the glyph has the
/// placement and extent of its metrics; an outline has the format of its
/// render mode and needs no scaling, a bitmap is a colour bitmap to be scaled
/// back.
pub open spec fn rasterized_with<B>(
    fonts: Map<FontKey, B>,
    pooled: Size,
    lut: GammaLut,
    font: FontInstance,
    bounds: Option<PixelBounds>,
    surface: Seq<u8>,
) -> Result<RasterizedGlyphView, GlyphRasterError> {
    if load_fails_with(fonts, font.font_key, bounds) {
        Err(GlyphRasterError::LoadFailed)
    } else {
        let metrics = GlyphMetrics::of(bounds);
        Ok(
            RasterizedGlyphView {
                left: metrics.rasterized_left,
                top: metrics.rasterized_ascent,
                width: metrics.rasterized_width,
                height: metrics.rasterized_height,
                scale: match font.spec_glyph_type() {
                    GlyphType::Bitmap => GlyphScale::InverseVerticalScale,
                    GlyphType::Vector => GlyphScale::One,
                },
                format: match font.spec_glyph_type() {
                    GlyphType::Bitmap => GlyphFormat::ColorBitmap,
                    GlyphType::Vector => font.spec_glyph_format(),
                },
                bytes: glyph_bytes_with(pooled, lut, font, bounds, surface),
            },
        )
    }
}

/// Extent of a rasterised glyph. A glyph of a registered font whose metrics
/// have a positive extent is rasterised, with exactly the width and height
/// of its metrics and four bytes for each of its pixels, whatever the
/// surface holds. Its placement and extent are those that are told as the
/// glyph's dimensions.
pub proof fn lemma_rasterized_extent<B>(
    fonts: Map<FontKey, B>,
    pooled: Size,
    lut: GammaLut,
    font: FontInstance,
    bounds: Option<PixelBounds>,
    surface: Seq<u8>,
)
    requires
        fonts.contains_key(font.font_key),
        GlyphMetrics::of(bounds).has_area(),
    ensures
        ({
            let metrics = GlyphMetrics::of(bounds);
            let r = rasterized_with(fonts, pooled, lut, font, bounds, surface);
            let d = dimensions_with(fonts, font.font_key, bounds);
            &&& r is Ok
            &&& r->Ok_0.width == metrics.rasterized_width
            &&& r->Ok_0.height == metrics.rasterized_height
            &&& r->Ok_0.bytes.len() == 4 * metrics.rasterized_width * metrics.rasterized_height
            &&& d is Some
            &&& d->0.width == r->Ok_0.width
            &&& d->0.height == r->Ok_0.height
            &&& d->0.left == r->Ok_0.left
            &&& d->0.top == r->Ok_0.top
        }),
{
}

/// No loss at full coverage. Where the ink covers a pixel of an outline
/// glyph wholly, so that the glyph's rectangle holds black at pixel `p` when
/// it is read back, the finished glyph has an alpha of 255 at that pixel:
/// with or without smoothing, in every render mode, for every text colour.
pub proof fn lemma_covered_pixel_is_opaque<B>(
    fonts: Map<FontKey, B>,
    pooled: Size,
    lut: GammaLut,
    font: FontInstance,
    bounds: Option<PixelBounds>,
    surface: Seq<u8>,
    p: int,
)
    requires
        lut.wf(),
        fonts.contains_key(font.font_key),
        !GlyphMetrics::of(bounds).spec_is_empty(),
        font.spec_glyph_type() == GlyphType::Vector,
        ({
            let drawn = read_back(surface, pooled, GlyphMetrics::of(bounds).spec_raster_size());
            &&& 0 <= p
            &&& 4 * p + 3 < drawn.len()
            &&& drawn[4 * p] == 0
            &&& drawn[4 * p + 1] == 0
            &&& drawn[4 * p + 2] == 0
        }),
    ensures
        rasterized_with(fonts, pooled, lut, font, bounds, surface) is Ok,
        rasterized_with(fonts, pooled, lut, font, bounds, surface)->Ok_0.bytes[4 * p + 3] == 255,
{
    let drawn = read_back(surface, pooled, GlyphMetrics::of(bounds).spec_raster_size());
    let smooth = draw_state_for(
        GlyphType::Vector,
        font.render_mode,
        font.flags.font_smoothing,
        font.color,
    ).smooth;
    if smooth {
        lemma_full_coverage_smoothed(drawn, lut, font.render_mode, font.color, p);
    } else {
        lemma_full_coverage_unsmoothed(drawn, lut, font.render_mode, font.color, p);
    }
}

/// Graceful degradation. After a system font was registered under a key,
/// whether the system knew it or not, the key has a font: looking for a
/// sized object finds one or asks for it to be made, and a glyph of the font
/// is rasterised unless it has no extent.
pub proof fn lemma_native_font_always_loads<B, S>(
    fonts: Map<FontKey, B>,
    sized: Map<SizedKey, S>,
    font_key: FontKey,
    found: Option<B>,
    fallback: B,
    pooled: Size,
    lut: GammaLut,
    font: FontInstance,
    bounds: Option<PixelBounds>,
    surface: Seq<u8>,
)
    requires
        font.font_key == font_key,
    ensures
        ({
            let registered = match found {
                Some(f) => f,
                None => fallback,
            };
            let after = with_font(fonts, font_key, registered);
            &&& after.contains_key(font_key)
            &&& !fonts.contains_key(font_key) ==> after[font_key] == registered
            &&& !(lookup_in(after, sized, (font_key, font.transformed_size, font.variations@))
                is NotFound)
            &&& load_fails_with(after, font_key, bounds) <==> GlyphMetrics::of(
                bounds,
            ).spec_is_empty()
            &&& rasterized_with(after, pooled, lut, font, bounds, surface) is Ok
                <==> !GlyphMetrics::of(bounds).spec_is_empty()
            &&& dimensions_with(after, font_key, bounds) is Some <==> !GlyphMetrics::of(
                bounds,
            ).spec_is_empty()
        }),
{
}

impl<B, S> FontContext<B, S> {
    /// The registered fonts, by key.
    pub closed spec fn fonts(&self) -> Map<FontKey, B> {
        self.fonts.fonts()
    }

    /// The cached sized font objects.
    pub closed spec fn sized_fonts(&self) -> Map<SizedKey, S> {
        self.fonts.sized_fonts()
    }

    /// The size of the pooled surface for glyphs of the given kind.
    pub closed spec fn surface_size(&self, glyph_type: GlyphType) -> Size {
        self.surfaces.size_of(glyph_type)
    }

    /// The gamma tables.
    pub closed spec fn lut(&self) -> GammaLut {
        self.gamma_lut
    }

    /// What the host does when smoothing is requested.
    pub closed spec fn smoothing(&self) -> SmoothingMode {
        self.font_smoothing_mode
    }

    pub closed spec fn wf(&self) -> bool {
        &&& self.fonts.wf()
        &&& self.surfaces.wf()
        &&& self.gamma_lut.wf()
    }

    /// In a well-formed context every sized object belongs to a registered
    /// font, the tables have their shape, and the surfaces have sizes that
    /// the pool can have.
    pub proof fn lemma_wf(&self)
        requires
            self.wf(),
        ensures
            self.lut().wf(),
            forall|k: SizedKey| #[trigger]
                self.sized_fonts().contains_key(k) ==> self.fonts().contains_key(k.0),
            forall|t: GlyphType| SurfacePool::pooled(#[trigger] self.surface_size(t)),
    {
        assert forall|k: SizedKey| #[trigger]
            self.sized_fonts().contains_key(k) implies self.fonts().contains_key(k.0) by {
            self.fonts.lemma_sized_has_font(k);
        }
        assert forall|t: GlyphType| SurfacePool::pooled(#[trigger] self.surface_size(t)) by {
            match t {
                GlyphType::Vector => {},
                GlyphType::Bitmap => {},
            }
        }
    }

    /// Contexts share nothing, so a caller may give each worker thread one
    /// of its own.
    pub fn distribute_across_threads() -> (r: bool)
        ensures
            r,
    {
        true
    }

    /// A context without fonts, with surfaces of the initial size, for a
    /// host with the given smoothing behaviour.
    pub fn new(font_smoothing_mode: SmoothingMode, gamma_lut: GammaLut) -> (context: Self)
        requires
            gamma_lut.wf(),
        ensures
            context.wf(),
            context.fonts() == Map::<FontKey, B>::empty(),
            context.sized_fonts() == Map::<SizedKey, S>::empty(),
            context.smoothing() == font_smoothing_mode,
            context.lut() == gamma_lut,
            forall|t: GlyphType| #[trigger]
                context.surface_size(t) == (Size {
                    width: crate::surface::INITIAL_SIDE_LENGTH,
                    height: crate::surface::INITIAL_SIDE_LENGTH,
                }),
    {
        FontContext {
            fonts: FontCache::new(),
            surfaces: SurfacePool::new(),
            gamma_lut,
            font_smoothing_mode,
        }
    }

    /// The host's smoothing behaviour that the context was made for.
    pub fn font_smoothing_mode(&self) -> (mode: SmoothingMode)
        ensures
            mode == self.smoothing(),
    {
        self.font_smoothing_mode
    }

    /// Whether a font is registered under `font_key`.
    pub fn has_font(&self, font_key: &FontKey) -> (r: bool)
        requires
            self.wf(),
        ensures
            r == self.fonts().contains_key(*font_key),
    {
        self.fonts.has_font(font_key)
    }

    /// Registers a font that was loaded from bytes. `font` is what parsing
    /// the bytes gave, `None` where they were malformed. Nothing happens
    /// where a font is registered under the key already, or where there is
    /// no font to register.
    pub fn add_raw_font(&mut self, font_key: &FontKey, font: Option<B>)
        requires
            old(self).wf(),
        ensures
            final(self).wf(),
            final(self).fonts() == match font {
                Some(f) => with_font(old(self).fonts(), *font_key, f),
                None => old(self).fonts(),
            },
            final(self).sized_fonts() == old(self).sized_fonts(),
            final(self).lut() == old(self).lut(),
            final(self).smoothing() == old(self).smoothing(),
            forall|t: GlyphType| #[trigger] final(self).surface_size(t) == old(self).surface_size(t),
    {
        match font {
            Some(base) => {
                self.fonts.insert_font(font_key, base);
            },
            None => {},
        }
    }

    /// Registers a font of the system. `font` is what the system gave for
    /// the font's name, `None` where it knows no such font; `fallback` is
    /// registered in its place then. Either way the key has a font
    /// afterwards.
    pub fn add_native_font(&mut self, font_key: &FontKey, font: Option<B>, fallback: B)
        requires
            old(self).wf(),
        ensures
            final(self).wf(),
            final(self).fonts() == with_font(
                old(self).fonts(),
                *font_key,
                match font {
                    Some(f) => f,
                    None => fallback,
                },
            ),
            final(self).fonts().contains_key(*font_key),
            final(self).sized_fonts() == old(self).sized_fonts(),
            final(self).lut() == old(self).lut(),
            final(self).smoothing() == old(self).smoothing(),
            forall|t: GlyphType| #[trigger] final(self).surface_size(t) == old(self).surface_size(t),
    {
        let base = match font {
            Some(found) => found,
            None => fallback,
        };
        self.fonts.insert_font(font_key, base);
    }

    /// Forgets a font and every sized object made from it.
    pub fn delete_font(&mut self, font_key: &FontKey)
        requires
            old(self).wf(),
        ensures
            final(self).wf(),
            final(self).fonts() == old(self).fonts().remove(*font_key),
            final(self).sized_fonts() == without_font(old(self).sized_fonts(), *font_key),
            final(self).lut() == old(self).lut(),
            final(self).smoothing() == old(self).smoothing(),
            forall|t: GlyphType| #[trigger] final(self).surface_size(t) == old(self).surface_size(t),
    {
        self.fonts.remove_font(font_key);
    }

    /// Forgets the sized object of a font instance.
    pub fn delete_font_instance(&mut self, instance: &FontInstance)
        requires
            old(self).wf(),
        ensures
            final(self).wf(),
            final(self).fonts() == old(self).fonts(),
            final(self).sized_fonts() == old(self).sized_fonts().remove(
                (instance.font_key, instance.transformed_size, instance.variations@),
            ),
            final(self).lut() == old(self).lut(),
            final(self).smoothing() == old(self).smoothing(),
            forall|t: GlyphType| #[trigger] final(self).surface_size(t) == old(self).surface_size(t),
    {
        self.fonts.remove_sized(
            &instance.font_key,
            instance.transformed_size,
            instance.variations.as_slice(),
        );
    }

    /// Looks for the sized object of a font at a size and with variation
    /// settings: the cached object, or the base object to make it from, or
    /// nothing where the font is not registered.
    pub fn get_sized(&self, font_key: &FontKey, size: FontSize, variations: &[FontVariation]) -> (r:
        FontLookup<'_, B, S>)
        requires
            self.wf(),
        ensures
            r == lookup_in(self.fonts(), self.sized_fonts(), (*font_key, size, variations@)),
            r is NotFound <==> !self.fonts().contains_key(*font_key),
    {
        self.fonts.lookup(font_key, size, variations)
    }

    /// Caches a sized object that was made after `get_sized` asked for it.
    /// It is dropped where its font is gone or the place is taken.
    pub fn insert_sized(
        &mut self,
        font_key: &FontKey,
        size: FontSize,
        variations: &[FontVariation],
        font: S,
    )
        requires
            old(self).wf(),
        ensures
            final(self).wf(),
            final(self).fonts() == old(self).fonts(),
            final(self).sized_fonts() == with_sized(
                old(self).fonts(),
                old(self).sized_fonts(),
                (*font_key, size, variations@),
                font,
            ),
            final(self).lut() == old(self).lut(),
            final(self).smoothing() == old(self).smoothing(),
            forall|t: GlyphType| #[trigger] final(self).surface_size(t) == old(self).surface_size(t),
    {
        self.fonts.insert_sized(font_key, size, variations, font);
    }

    /// Says how to find the glyph of a character: which font object to ask,
    /// at sixteen pixels and without variations, and for which UTF-16 code
    /// unit. A character beyond the basic plane is cut to its low sixteen
    /// bits.
    pub fn get_glyph_index(&self, font_key: FontKey, ch: char) -> (r: (FontLookup<'_, B, S>, u16))
        requires
            self.wf(),
        ensures
            r.0 == lookup_in(
                self.fonts(),
                self.sized_fonts(),
                (font_key, FontSize(GLYPH_INDEX_SIZE), Seq::<FontVariation>::empty()),
            ),
            r.0 is NotFound <==> !self.fonts().contains_key(font_key),
            r.1 == (ch as u32) % 0x1_0000,
    {
        let code: u32 = ch as u32;
        let character: u16 = (code % 0x1_0000) as u16;
        let none: Vec<FontVariation> = Vec::new();
        let lookup = self.fonts.lookup(&font_key, FontSize(GLYPH_INDEX_SIZE), none.as_slice());
        assert(none@ =~= Seq::<FontVariation>::empty());
        (lookup, character)
    }

    /// The placement of a glyph of `font` whose rounded ink box is `bounds`
    /// (`None` where the font service could not measure the glyph). There is
    /// none where the font is not registered or the glyph has no extent.
    pub fn get_glyph_dimensions(&self, font: &FontInstance, bounds: Option<PixelBounds>) -> (r:
        Option<GlyphDimensions>)
        requires
            self.wf(),
            bounds is Some ==> bounds->0.fits(),
        ensures
            r == dimensions_with(self.fonts(), font.font_key, bounds),
    {
        if !self.fonts.has_font(&font.font_key) {
            return None;
        }
        let metrics = GlyphMetrics::from_bounds(bounds);
        metrics.dimensions()
    }

    /// Normalises a font instance for this context's host.
    pub fn prepare_font(&self, font: &mut FontInstance)
        ensures
            *final(font) == old(font).prepared(self.smoothing()),
    {
        font.prepare(self.font_smoothing_mode);
    }

    /// Called before the glyphs of an instance are rasterised. Nothing
    /// needs doing.
    pub fn begin_rasterize(_font: &FontInstance) {
    }

    /// Called after the glyphs of an instance were rasterised. Nothing
    /// needs doing.
    pub fn end_rasterize(_font: &FontInstance) {
    }

    /// Whether nothing can be rasterised for a glyph of `font` with rounded
    /// ink box `bounds`.
    pub open spec fn load_fails(&self, font: &FontInstance, bounds: Option<PixelBounds>) -> bool {
        load_fails_with(self.fonts(), font.font_key, bounds)
    }

    /// Plans the drawing of a glyph of `font` whose rounded ink box is
    /// `bounds`: its rectangle, the surface to draw it into, and the drawing
    /// state. The surface for the glyph's kind grows as the rectangle needs.
    pub fn plan_glyph(&mut self, font: &FontInstance, bounds: Option<PixelBounds>) -> (r: Result<
        GlyphPlan,
        GlyphRasterError,
    >)
        requires
            old(self).wf(),
            bounds is Some ==> bounds->0.fits(),
            !old(self).load_fails(font, bounds) ==> GlyphMetrics::of(bounds).has_area(),
        ensures
            final(self).wf(),
            final(self).fonts() == old(self).fonts(),
            final(self).sized_fonts() == old(self).sized_fonts(),
            final(self).lut() == old(self).lut(),
            final(self).smoothing() == old(self).smoothing(),
            r is Err <==> old(self).load_fails(font, bounds),
            r is Err ==> r->Err_0 == GlyphRasterError::LoadFailed,
            r is Err ==> forall|t: GlyphType| #[trigger]
                final(self).surface_size(t) == old(self).surface_size(t),
            r is Ok ==> {
                let plan = r->Ok_0;
                let metrics = GlyphMetrics::of(bounds);
                &&& plan.glyph_type == font.spec_glyph_type()
                &&& plan.metrics == metrics
                &&& plan.raster_size == metrics.spec_raster_size()
                &&& plan.draw == draw_state_for(
                    font.spec_glyph_type(),
                    font.render_mode,
                    font.flags.font_smoothing,
                    font.color,
                )
                &&& plan.origin_x == -metrics.rasterized_left
                &&& plan.origin_y == metrics.rasterized_descent
                &&& plan.surface.size == final(self).surface_size(plan.glyph_type)
                &&& plan.surface.size == grown(
                    old(self).surface_size(plan.glyph_type),
                    plan.raster_size,
                )
                &&& plan.surface.reallocate == (plan.surface.size != old(self).surface_size(
                    plan.glyph_type,
                ))
                &&& plan.raster_size.width <= plan.surface.size.width
                &&& plan.raster_size.height <= plan.surface.size.height
                &&& forall|t: GlyphType|
                    t != plan.glyph_type ==> #[trigger] final(self).surface_size(t) == old(
                        self,
                    ).surface_size(t)
            },
    {
        if !self.fonts.has_font(&font.font_key) {
            return Err(GlyphRasterError::LoadFailed);
        }
        let glyph_type = font.glyph_type();
        let metrics = GlyphMetrics::from_bounds(bounds);
        if metrics.is_empty() {
            return Err(GlyphRasterError::LoadFailed);
        }
        let raster_size = metrics.raster_size();
        let draw = draw_state(font);
        let surface = self.surfaces.get_context(&raster_size, glyph_type);
        Ok(
            GlyphPlan {
                glyph_type,
                metrics,
                raster_size,
                surface,
                draw,
                origin_x: -(metrics.rasterized_left as i64),
                origin_y: metrics.rasterized_descent as i64,
            },
        )
    }

    /// Brings a linear mask back to device space, pre-blended for text of
    /// the given colour.
    pub fn gamma_correct_pixels(
        &self,
        pixels: &mut Vec<u8>,
        render_mode: FontRenderMode,
        color: ColorU,
    )
        requires
            self.wf(),
            old(pixels)@.len() % 4 == 0,
        ensures
            final(pixels)@ == gamma_corrected(old(pixels)@, self.lut(), render_mode, color),
    {
        crate::raster::gamma_correct_pixels(&self.gamma_lut, pixels, render_mode, color);
    }

    /// The bytes of a glyph of `font` with rounded ink box `bounds`, given
    /// the memory of the pooled surface it was drawn into.
    pub open spec fn glyph_bytes(
        &self,
        font: &FontInstance,
        bounds: Option<PixelBounds>,
        surface: Seq<u8>,
    ) -> Seq<u8> {
        glyph_bytes_with(
            self.surface_size(font.spec_glyph_type()),
            self.lut(),
            *font,
            bounds,
            surface,
        )
    }

    /// What rasterising a glyph of `font` with rounded ink box `bounds`
    /// gives, from the memory of the pooled surface it was drawn into.
    pub open spec fn rasterized(
        &self,
        font: &FontInstance,
        bounds: Option<PixelBounds>,
        surface: Seq<u8>,
    ) -> Result<RasterizedGlyphView, GlyphRasterError> {
        rasterized_with(
            self.fonts(),
            self.surface_size(font.spec_glyph_type()),
            self.lut(),
            *font,
            bounds,
            surface,
        )
    }

    /// Whether `surface` can be the memory of the pooled surface that a
    /// glyph of `font` with rounded ink box `bounds` was drawn into: the
    /// glyph's rectangle has pixels and fits the surface, and there are four
    /// bytes for every pixel of the surface.
    pub open spec fn drawn_into(
        &self,
        font: &FontInstance,
        bounds: Option<PixelBounds>,
        surface: Seq<u8>,
    ) -> bool {
        let metrics = GlyphMetrics::of(bounds);
        let pooled = self.surface_size(font.spec_glyph_type());
        &&& metrics.has_area()
        &&& metrics.rasterized_width <= pooled.width
        &&& metrics.rasterized_height <= pooled.height
        &&& surface.len() == 4 * pooled.width * pooled.height
    }

    /// Computes `drawn_into`.
    pub fn check_drawn_into(
        &self,
        font: &FontInstance,
        bounds: Option<PixelBounds>,
        surface: &[u8],
    ) -> (r: bool)
        requires
            self.wf(),
            bounds is Some ==> bounds->0.fits(),
        ensures
            r == self.drawn_into(font, bounds, surface@),
    {
        let metrics = GlyphMetrics::from_bounds(bounds);
        if !metrics.check_has_area() {
            return false;
        }
        let size = metrics.raster_size();
        let pooled = self.surfaces.context_size(font.glyph_type());
        assert(4 * pooled.width * pooled.height <= 4 * 0xffff_ffff * 0xffff_ffff)
            by (nonlinear_arith)
            requires
                0 <= pooled.width <= 0xffff_ffff,
                0 <= pooled.height <= 0xffff_ffff,
        ;
        let needed: u128 = 4 * (pooled.width as u128) * (pooled.height as u128);
        size.width <= pooled.width && size.height <= pooled.height && surface.len() as u128
            == needed
    }

    /// Finishes a glyph of `font` whose rounded ink box is `bounds`, from
    /// the memory of the surface that it was drawn into as `plan_glyph`
    /// said. The glyph has exactly the placement and extent of its metrics.
    /// The load fails where the font is not registered or the glyph has no
    /// extent, and only there.
    pub fn rasterize_glyph(
        &self,
        font: &FontInstance,
        bounds: Option<PixelBounds>,
        surface: &[u8],
    ) -> (r: GlyphRasterResult)
        requires
            self.wf(),
            bounds is Some ==> bounds->0.fits(),
            !self.load_fails(font, bounds) ==> self.drawn_into(font, bounds, surface@),
        ensures
            r is Err <==> self.load_fails(font, bounds),
            match r {
                Ok(glyph) => self.rasterized(font, bounds, surface@) == Ok::<
                    RasterizedGlyphView,
                    GlyphRasterError,
                >(glyph@),
                Err(error) => self.rasterized(font, bounds, surface@) == Err::<
                    RasterizedGlyphView,
                    GlyphRasterError,
                >(error),
            },
            r is Ok ==> {
                let glyph = r->Ok_0;
                let metrics = GlyphMetrics::of(bounds);
                &&& glyph.width == metrics.rasterized_width
                &&& glyph.height == metrics.rasterized_height
                &&& glyph.bytes@ == self.glyph_bytes(font, bounds, surface@)
                &&& glyph.bytes@.len() == 4 * glyph.width * glyph.height
            },
    {
        if !self.fonts.has_font(&font.font_key) {
            return Err(GlyphRasterError::LoadFailed);
        }
        let glyph_type = font.glyph_type();
        let metrics = GlyphMetrics::from_bounds(bounds);
        if metrics.is_empty() {
            return Err(GlyphRasterError::LoadFailed);
        }
        let raster_size = metrics.raster_size();
        let draw = draw_state(font);
        let mut rasterized_pixels = self.surfaces.get_rasterized_pixels(
            surface,
            &raster_size,
            glyph_type,
        );
        assert(rasterized_pixels@.len() == 4 * (raster_size.width * raster_size.height))
            by (nonlinear_arith)
            requires
                rasterized_pixels@.len() == 4 * raster_size.width * raster_size.height,
        ;
        post_process(
            &mut rasterized_pixels,
            glyph_type,
            draw.smooth,
            &self.gamma_lut,
            font.render_mode,
            font.color,
        );
        Ok(
            RasterizedGlyph {
                left: metrics.rasterized_left,
                top: metrics.rasterized_ascent,
                width: metrics.rasterized_width,
                height: metrics.rasterized_height,
                scale: match glyph_type {
                    GlyphType::Bitmap => GlyphScale::InverseVerticalScale,
                    GlyphType::Vector => GlyphScale::One,
                },
                format: match glyph_type {
                    GlyphType::Bitmap => GlyphFormat::ColorBitmap,
                    GlyphType::Vector => font.get_glyph_format(),
                },
                bytes: rasterized_pixels,
            },
        )
    }
}

} // verus!

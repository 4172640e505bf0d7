use wr_glyph_rasterizer::cache::{copy_variations, same_variations, FontCache, FontLookup};
use wr_glyph_rasterizer::color::ColorU;
use wr_glyph_rasterizer::context::FontContext;
use wr_glyph_rasterizer::gamma::GammaLut;
use wr_glyph_rasterizer::instance::{
    FontInstance, FontInstanceFlags, FontKey, FontRenderMode, FontSize, FontVariation,
    GlyphFormat, GlyphType, SmoothingMode, SyntheticItalics,
};
use wr_glyph_rasterizer::metrics::{GlyphDimensions, PixelBounds, Size};
use wr_glyph_rasterizer::raster::{DrawState, GlyphRasterError, GlyphScale};

type Context = FontContext<&'static str, String>;

fn identity_lut() -> GammaLut {
    let identity: Vec<u8> = (0..256u32).map(|i| i as u8).collect();
    GammaLut::new(vec![identity.clone(); 8], identity).unwrap()
}

fn context(mode: SmoothingMode) -> Context {
    FontContext::new(mode, identity_lut())
}

fn instance(key: FontKey, render_mode: FontRenderMode) -> FontInstance {
    FontInstance {
        font_key: key,
        transformed_size: FontSize(12 << 16),
        render_mode,
        flags: FontInstanceFlags {
            flip_x: false,
            flip_y: false,
            transpose: false,
            font_smoothing: false,
            embedded_bitmaps: false,
            synthetic_bold: false,
            multistrike_bold: false,
            subpixel_position_disabled: false,
        },
        synthetic_italics: SyntheticItalics { angle: 0 },
        color: ColorU::new(255, 255, 255, 255),
        variations: vec![],
    }
}

fn cached<'a>(lookup: FontLookup<'a, &'static str, String>) -> Option<&'a String> {
    match lookup {
        FontLookup::Cached(font) => Some(font),
        _ => None,
    }
}

#[test]
fn contexts_can_be_distributed() {
    assert!(Context::distribute_across_threads());
}

#[test]
fn new_context_is_empty() {
    let ctx = context(SmoothingMode::AlphaOnly);
    assert_eq!(ctx.font_smoothing_mode(), SmoothingMode::AlphaOnly);
    assert!(!ctx.has_font(&FontKey(0, 0)));
    assert!(matches!(ctx.get_sized(&FontKey(0, 0), FontSize(1), &[]), FontLookup::NotFound));
}

#[test]
fn raw_font_is_registered_once() {
    let mut ctx = context(SmoothingMode::Off);
    let key = FontKey(1, 1);
    ctx.add_raw_font(&key, Some("first"));
    ctx.add_raw_font(&key, Some("second"));
    assert!(matches!(ctx.get_sized(&key, FontSize(1), &[]), FontLookup::Instantiate(&"first")));
}

#[test]
fn malformed_raw_font_is_dropped() {
    let mut ctx = context(SmoothingMode::Off);
    let key = FontKey(1, 1);
    ctx.add_raw_font(&key, None);
    assert!(!ctx.has_font(&key));
    assert!(matches!(ctx.get_sized(&key, FontSize(1), &[]), FontLookup::NotFound));
    let font = instance(key, FontRenderMode::Alpha);
    assert_eq!(
        ctx.rasterize_glyph(&font, Some(PixelBounds { left: 0, bottom: 0, right: 1, top: 1 }), &[]),
        Err(GlyphRasterError::LoadFailed)
    );
}

#[test]
fn native_font_falls_back_when_unknown() {
    let mut ctx = context(SmoothingMode::Off);
    ctx.add_native_font(&FontKey(1, 1), Some("known"), "fallback");
    ctx.add_native_font(&FontKey(1, 2), None, "fallback");
    ctx.add_native_font(&FontKey(1, 1), None, "fallback");
    assert!(matches!(
        ctx.get_sized(&FontKey(1, 1), FontSize(1), &[]),
        FontLookup::Instantiate(&"known")
    ));
    assert!(matches!(
        ctx.get_sized(&FontKey(1, 2), FontSize(1), &[]),
        FontLookup::Instantiate(&"fallback")
    ));
    let font = instance(FontKey(1, 2), FontRenderMode::Alpha);
    let bounds = Some(PixelBounds { left: 0, bottom: 0, right: 1, top: 1 });
    assert!(ctx.plan_glyph(&font, bounds).is_ok());
    let plan = ctx.plan_glyph(&font, bounds).unwrap();
    assert_eq!(plan.surface.size, Size { width: 4, height: 4 });
    assert!(ctx.rasterize_glyph(&font, bounds, &vec![255; 4 * 4 * 4]).is_ok());
}

#[test]
fn sized_font_is_instantiated_once() {
    let mut ctx = context(SmoothingMode::Off);
    let key = FontKey(1, 1);
    let vars = [FontVariation { tag: 9, value: 3 }];
    ctx.add_raw_font(&key, Some("base"));
    ctx.insert_sized(&key, FontSize(20), &vars, String::from("made first"));
    ctx.insert_sized(&key, FontSize(20), &vars, String::from("made second"));
    let first = cached(ctx.get_sized(&key, FontSize(20), &vars)).unwrap();
    let again = cached(ctx.get_sized(&key, FontSize(20), &vars)).unwrap();
    assert_eq!(first, "made first");
    assert!(std::ptr::eq(first, again));
}

#[test]
fn sized_fonts_are_kept_apart_by_size_and_variations() {
    let mut ctx = context(SmoothingMode::Off);
    let key = FontKey(1, 1);
    ctx.add_raw_font(&key, Some("base"));
    ctx.insert_sized(&key, FontSize(20), &[], String::from("a"));
    ctx.insert_sized(&key, FontSize(21), &[], String::from("b"));
    ctx.insert_sized(&key, FontSize(20), &[FontVariation { tag: 1, value: 1 }], String::from("c"));
    ctx.insert_sized(&key, FontSize(20), &[FontVariation { tag: 1, value: 2 }], String::from("d"));
    assert_eq!(cached(ctx.get_sized(&key, FontSize(20), &[])).unwrap(), "a");
    assert_eq!(cached(ctx.get_sized(&key, FontSize(21), &[])).unwrap(), "b");
    assert_eq!(
        cached(ctx.get_sized(&key, FontSize(20), &[FontVariation { tag: 1, value: 1 }])).unwrap(),
        "c"
    );
    assert_eq!(
        cached(ctx.get_sized(&key, FontSize(20), &[FontVariation { tag: 1, value: 2 }])).unwrap(),
        "d"
    );
    assert!(matches!(ctx.get_sized(&key, FontSize(22), &[]), FontLookup::Instantiate(&"base")));
}

#[test]
fn sized_font_without_base_is_not_cached() {
    let mut ctx = context(SmoothingMode::Off);
    ctx.insert_sized(&FontKey(1, 1), FontSize(20), &[], String::from("orphan"));
    assert!(matches!(ctx.get_sized(&FontKey(1, 1), FontSize(20), &[]), FontLookup::NotFound));
}

#[test]
fn deleted_font_is_not_found_at_any_size() {
    let mut ctx = context(SmoothingMode::Off);
    let key = FontKey(1, 1);
    let other = FontKey(1, 2);
    let vars = [FontVariation { tag: 9, value: 3 }];
    ctx.add_raw_font(&key, Some("base"));
    ctx.add_raw_font(&other, Some("other"));
    ctx.insert_sized(&key, FontSize(20), &[], String::from("a"));
    ctx.insert_sized(&other, FontSize(20), &[], String::from("kept"));
    ctx.insert_sized(&key, FontSize(20), &vars, String::from("b"));
    ctx.insert_sized(&key, FontSize(30), &[], String::from("c"));
    ctx.delete_font(&key);
    assert!(!ctx.has_font(&key));
    assert!(matches!(ctx.get_sized(&key, FontSize(20), &[]), FontLookup::NotFound));
    assert!(matches!(ctx.get_sized(&key, FontSize(20), &vars), FontLookup::NotFound));
    assert!(matches!(ctx.get_sized(&key, FontSize(30), &[]), FontLookup::NotFound));
    assert!(matches!(ctx.get_sized(&key, FontSize(99), &[]), FontLookup::NotFound));
    assert_eq!(cached(ctx.get_sized(&other, FontSize(20), &[])).unwrap(), "kept");
    // Registering the key again does not bring the old sized objects back.
    ctx.add_raw_font(&key, Some("again"));
    assert!(matches!(ctx.get_sized(&key, FontSize(20), &[]), FontLookup::Instantiate(&"again")));
}

#[test]
fn deleting_an_unknown_font_changes_nothing() {
    let mut ctx = context(SmoothingMode::Off);
    let key = FontKey(1, 1);
    ctx.add_raw_font(&key, Some("base"));
    ctx.insert_sized(&key, FontSize(20), &[], String::from("a"));
    ctx.delete_font(&FontKey(7, 7));
    assert_eq!(cached(ctx.get_sized(&key, FontSize(20), &[])).unwrap(), "a");
}

#[test]
fn deleting_an_instance_drops_one_sized_font() {
    let mut ctx = context(SmoothingMode::Off);
    let key = FontKey(1, 1);
    let mut font = instance(key, FontRenderMode::Alpha);
    font.variations = vec![FontVariation { tag: 9, value: 3 }];
    ctx.add_raw_font(&key, Some("base"));
    ctx.insert_sized(&key, font.transformed_size, &font.variations, String::from("mine"));
    ctx.insert_sized(&key, font.transformed_size, &[], String::from("plain"));
    ctx.delete_font_instance(&font);
    assert!(matches!(
        ctx.get_sized(&key, font.transformed_size, &font.variations),
        FontLookup::Instantiate(&"base")
    ));
    assert_eq!(cached(ctx.get_sized(&key, font.transformed_size, &[])).unwrap(), "plain");
    ctx.delete_font_instance(&font);
    assert_eq!(cached(ctx.get_sized(&key, font.transformed_size, &[])).unwrap(), "plain");
}

#[test]
fn glyph_index_is_asked_at_sixteen_pixels() {
    let mut ctx = context(SmoothingMode::Off);
    let key = FontKey(1, 1);
    let (lookup, unit) = ctx.get_glyph_index(key, 'X');
    assert!(matches!(lookup, FontLookup::NotFound));
    assert_eq!(unit, 88);
    ctx.add_raw_font(&key, Some("base"));
    let (lookup, _) = ctx.get_glyph_index(key, 'X');
    assert!(matches!(lookup, FontLookup::Instantiate(&"base")));
    ctx.insert_sized(&key, FontSize(16 << 16), &[], String::from("sixteen"));
    let (lookup, unit) = ctx.get_glyph_index(key, '\u{1F600}');
    assert_eq!(cached(lookup).unwrap(), "sixteen");
    assert_eq!(unit, 0xF600);
}

#[test]
fn glyph_dimensions_need_font_and_extent() {
    let mut ctx = context(SmoothingMode::Off);
    let key = FontKey(1, 1);
    let font = instance(key, FontRenderMode::Alpha);
    let bounds = Some(PixelBounds { left: 0, bottom: -2, right: 7, top: 9 });
    assert_eq!(ctx.get_glyph_dimensions(&font, bounds), None);
    ctx.add_raw_font(&key, Some("base"));
    assert_eq!(
        ctx.get_glyph_dimensions(&font, bounds),
        Some(GlyphDimensions { left: -1, top: 10, width: 9, height: 13 })
    );
    assert_eq!(ctx.get_glyph_dimensions(&font, None), None);
}

#[test]
fn prepare_font_uses_the_context_smoothing() {
    let ctx = context(SmoothingMode::Off);
    let mut font = instance(FontKey(1, 1), FontRenderMode::Subpixel);
    font.color = ColorU::new(1, 2, 3, 4);
    ctx.prepare_font(&mut font);
    assert_eq!(font.render_mode, FontRenderMode::Alpha);
    assert!(!font.flags.font_smoothing);
    assert_eq!(font.color, ColorU::new(255, 255, 255, 255));
    let capable = context(SmoothingMode::SubpixelCapable);
    let mut font = instance(FontKey(1, 1), FontRenderMode::Subpixel);
    font.color = ColorU::new(100, 2, 3, 4);
    capable.prepare_font(&mut font);
    assert_eq!(font.render_mode, FontRenderMode::Subpixel);
    assert!(font.flags.font_smoothing);
    assert_eq!(font.color, ColorU::new(96, 0, 0, 255));
    Context::begin_rasterize(&font);
    Context::end_rasterize(&font);
    assert_eq!(font.color, ColorU::new(96, 0, 0, 255));
}

#[test]
fn plan_fails_without_font_or_extent() {
    let mut ctx = context(SmoothingMode::Off);
    let key = FontKey(1, 1);
    let font = instance(key, FontRenderMode::Alpha);
    let bounds = Some(PixelBounds { left: 0, bottom: 0, right: 1, top: 1 });
    assert_eq!(ctx.plan_glyph(&font, bounds), Err(GlyphRasterError::LoadFailed));
    ctx.add_raw_font(&key, Some("base"));
    assert_eq!(ctx.plan_glyph(&font, None), Err(GlyphRasterError::LoadFailed));
    assert_eq!(ctx.rasterize_glyph(&font, None, &[]), Err(GlyphRasterError::LoadFailed));
    assert!(ctx.plan_glyph(&font, bounds).is_ok());
}

#[test]
fn plan_follows_the_drawing_table() {
    let mut ctx = context(SmoothingMode::SubpixelCapable);
    let key = FontKey(1, 1);
    ctx.add_raw_font(&key, Some("base"));
    let bounds = Some(PixelBounds { left: 0, bottom: 0, right: 1, top: 1 });
    let black = ColorU::new(0, 0, 0, 255);
    let white = ColorU::new(255, 255, 255, 255);
    let state = |antialias, smooth, text_color, bg_color| DrawState {
        subpixel_position: true,
        subpixel_quantize: false,
        antialias,
        smooth,
        text_color,
        bg_color,
    };

    let mut font = instance(key, FontRenderMode::Subpixel);
    font.color = ColorU::new(9, 8, 7, 6);
    assert_eq!(ctx.plan_glyph(&font, bounds).unwrap().draw, state(true, true, black, white));
    font.flags.font_smoothing = true;
    assert_eq!(ctx.plan_glyph(&font, bounds).unwrap().draw, state(true, true, black, white));
    font.render_mode = FontRenderMode::Alpha;
    assert_eq!(ctx.plan_glyph(&font, bounds).unwrap().draw, state(true, true, black, white));
    font.flags.font_smoothing = false;
    assert_eq!(ctx.plan_glyph(&font, bounds).unwrap().draw, state(true, false, black, white));
    font.render_mode = FontRenderMode::Mono;
    assert_eq!(ctx.plan_glyph(&font, bounds).unwrap().draw, state(false, false, black, white));
    font.flags.font_smoothing = true;
    assert_eq!(ctx.plan_glyph(&font, bounds).unwrap().draw, state(false, false, black, white));
    font.flags.embedded_bitmaps = true;
    font.render_mode = FontRenderMode::Subpixel;
    let plan = ctx.plan_glyph(&font, bounds).unwrap();
    assert_eq!(plan.glyph_type, GlyphType::Bitmap);
    assert_eq!(
        plan.draw,
        state(true, false, ColorU::new(9, 8, 7, 6), ColorU::new(0, 0, 0, 0))
    );
}

#[test]
fn plan_grows_only_the_surface_of_the_glyph_kind() {
    let mut ctx = context(SmoothingMode::Off);
    let key = FontKey(1, 1);
    ctx.add_raw_font(&key, Some("base"));
    let font = instance(key, FontRenderMode::Alpha);
    let mut bitmap = instance(key, FontRenderMode::Alpha);
    bitmap.flags.embedded_bitmaps = true;

    let small = ctx.plan_glyph(&font, Some(PixelBounds { left: 0, bottom: 0, right: 8, top: 8 }));
    let small = small.unwrap();
    assert_eq!(small.raster_size, Size { width: 10, height: 10 });
    assert_eq!(small.surface.size, Size { width: 16, height: 16 });
    assert!(small.surface.reallocate);

    let wide = ctx.plan_glyph(&font, Some(PixelBounds { left: 0, bottom: 0, right: 38, top: 1 }));
    let wide = wide.unwrap();
    assert_eq!(wide.raster_size, Size { width: 40, height: 3 });
    assert_eq!(wide.surface.size, Size { width: 64, height: 16 });
    assert!(wide.surface.reallocate);

    let again = ctx.plan_glyph(&font, Some(PixelBounds { left: 0, bottom: 0, right: 3, top: 3 }));
    let again = again.unwrap();
    assert_eq!(again.surface.size, Size { width: 64, height: 16 });
    assert!(!again.surface.reallocate);

    let other = ctx.plan_glyph(&bitmap, Some(PixelBounds { left: 0, bottom: 0, right: 3, top: 3 }));
    let other = other.unwrap();
    assert_eq!(other.surface.size, Size { width: 8, height: 8 });
    assert!(other.surface.reallocate);
}

fn surface_with_black_pixel(width: usize, height: usize, col: usize, row_from_top: usize) -> Vec<u8> {
    let mut data = vec![255u8; width * height * 4];
    let at = (row_from_top * width + col) * 4;
    data[at] = 0;
    data[at + 1] = 0;
    data[at + 2] = 0;
    data
}

#[test]
fn rasterized_glyph_has_the_extent_of_its_metrics() {
    let mut ctx = context(SmoothingMode::Off);
    let key = FontKey(1, 1);
    ctx.add_raw_font(&key, Some("base"));
    let font = instance(key, FontRenderMode::Alpha);
    let bounds = Some(PixelBounds { left: 2, bottom: -1, right: 3, top: 0 });
    let plan = ctx.plan_glyph(&font, bounds).unwrap();
    assert_eq!(plan.raster_size, Size { width: 3, height: 3 });
    assert_eq!((plan.origin_x, plan.origin_y), (-1, 2));
    assert_eq!(plan.surface.size, Size { width: 4, height: 4 });
    // The glyph's rectangle is the left end of the surface's last three rows.
    let data = surface_with_black_pixel(4, 4, 1, 2);
    assert!(ctx.check_drawn_into(&font, bounds, &data));
    assert!(!ctx.check_drawn_into(&font, bounds, &data[1..]));
    let glyph = ctx.rasterize_glyph(&font, bounds, &data).unwrap();
    assert_eq!(glyph.left, 1);
    assert_eq!(glyph.top, 1);
    assert_eq!(glyph.width, plan.metrics.rasterized_width);
    assert_eq!(glyph.height, plan.metrics.rasterized_height);
    assert_eq!(glyph.width, 3);
    assert_eq!(glyph.height, 3);
    assert_eq!(glyph.scale, GlyphScale::One);
    assert_eq!(glyph.format, GlyphFormat::Alpha);
    let mut expected = vec![0u8; 3 * 3 * 4];
    for byte in &mut expected[16..20] {
        *byte = 255;
    }
    assert_eq!(glyph.bytes, expected);
}

#[test]
fn fully_covered_pixel_has_full_alpha_with_smoothing() {
    let mut ctx = context(SmoothingMode::AlphaOnly);
    let key = FontKey(1, 1);
    ctx.add_raw_font(&key, Some("base"));
    let mut font = instance(key, FontRenderMode::Alpha);
    font.flags.font_smoothing = true;
    ctx.prepare_font(&mut font);
    assert_eq!(font.color, ColorU::new(224, 224, 224, 255));
    let bounds = Some(PixelBounds { left: 0, bottom: 0, right: 1, top: 1 });
    let plan = ctx.plan_glyph(&font, bounds).unwrap();
    assert!(plan.draw.smooth);
    let data = surface_with_black_pixel(4, 4, 1, 2);
    let glyph = ctx.rasterize_glyph(&font, bounds, &data).unwrap();
    assert_eq!(glyph.bytes[16..20], [255, 255, 255, 255]);
    assert_eq!(glyph.bytes[0..4], [0, 0, 0, 0]);
}

#[test]
fn bitmap_glyph_is_returned_as_drawn() {
    let mut ctx = context(SmoothingMode::SubpixelCapable);
    let key = FontKey(1, 1);
    ctx.add_raw_font(&key, Some("base"));
    let mut font = instance(key, FontRenderMode::Subpixel);
    font.flags.embedded_bitmaps = true;
    let bounds = Some(PixelBounds { left: 0, bottom: 0, right: 0, top: 0 });
    let plan = ctx.plan_glyph(&font, bounds).unwrap();
    assert_eq!(plan.raster_size, Size { width: 2, height: 2 });
    // A first, larger glyph leaves a surface of four by four pixels.
    ctx.plan_glyph(&font, Some(PixelBounds { left: 0, bottom: 0, right: 1, top: 2 })).unwrap();
    let plan = ctx.plan_glyph(&font, bounds).unwrap();
    assert_eq!(plan.surface.size, Size { width: 4, height: 4 });
    let data: Vec<u8> = (0..4 * 4 * 4).map(|i| (i * 3 % 251) as u8).collect();
    let glyph = ctx.rasterize_glyph(&font, bounds, &data).unwrap();
    assert_eq!(glyph.scale, GlyphScale::InverseVerticalScale);
    assert_eq!(glyph.format, GlyphFormat::ColorBitmap);
    let row = |r: usize| data[r * 4 * 4..r * 4 * 4 + 8].to_vec();
    assert_eq!(glyph.bytes, [row(2), row(3)].concat());
}

#[test]
fn subpixel_glyph_keeps_its_channels() {
    let mut ctx = context(SmoothingMode::SubpixelCapable);
    let key = FontKey(1, 1);
    ctx.add_raw_font(&key, Some("base"));
    let font = instance(key, FontRenderMode::Subpixel);
    let bounds = Some(PixelBounds { left: 0, bottom: 0, right: 0, top: 0 });
    let plan = ctx.plan_glyph(&font, bounds).unwrap();
    assert_eq!(plan.surface.size, Size { width: 2, height: 2 });
    let mut data = vec![255u8; 2 * 2 * 4];
    let at = 0;
    data[at] = 200;
    data[at + 1] = 100;
    data[at + 2] = 50;
    let glyph = ctx.rasterize_glyph(&font, bounds, &data).unwrap();
    assert_eq!(glyph.format, GlyphFormat::Subpixel);
    assert_eq!(glyph.bytes[0..4], [55, 155, 205, 155]);
}

#[test]
fn variation_lists_compare_and_copy() {
    let a = [FontVariation { tag: 1, value: 2 }, FontVariation { tag: 3, value: 4 }];
    let b = [FontVariation { tag: 1, value: 2 }, FontVariation { tag: 3, value: 5 }];
    assert!(same_variations(&a, &a));
    assert!(!same_variations(&a, &b));
    assert!(!same_variations(&a, &a[..1]));
    assert!(same_variations(&[], &[]));
    assert_eq!(copy_variations(&a), a.to_vec());
}

#[test]
fn font_cache_on_its_own() {
    let mut cache: FontCache<u32, u64> = FontCache::new();
    let key = FontKey(1, 1);
    assert_eq!(cache.get_font(&key), None);
    cache.insert_font(&key, 5);
    cache.insert_font(&key, 6);
    assert_eq!(cache.get_font(&key), Some(&5));
    assert_eq!(cache.get_sized(&key, FontSize(1), &[]), None);
    cache.insert_sized(&key, FontSize(1), &[], 50);
    assert_eq!(cache.get_sized(&key, FontSize(1), &[]), Some(&50));
    assert!(matches!(cache.lookup(&key, FontSize(1), &[]), FontLookup::Cached(&50)));
    cache.remove_sized(&key, FontSize(1), &[]);
    assert_eq!(cache.get_sized(&key, FontSize(1), &[]), None);
    cache.insert_sized(&key, FontSize(1), &[], 51);
    cache.remove_font(&key);
    assert!(!cache.has_font(&key));
    assert_eq!(cache.get_sized(&key, FontSize(1), &[]), None);
}

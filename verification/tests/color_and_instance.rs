use wr_glyph_rasterizer::color::{compute_luminance, quantize_channel, ColorU};
use wr_glyph_rasterizer::instance::{
    FontInstance, FontInstanceFlags, FontKey, FontRenderMode, FontSize, FontVariation,
    GlyphFormat, GlyphType, SmoothingMode, SyntheticItalics,
};

fn flags() -> FontInstanceFlags {
    FontInstanceFlags {
        flip_x: false,
        flip_y: false,
        transpose: false,
        font_smoothing: false,
        embedded_bitmaps: false,
        synthetic_bold: false,
        multistrike_bold: false,
        subpixel_position_disabled: false,
    }
}

fn instance(render_mode: FontRenderMode, flags: FontInstanceFlags, color: ColorU) -> FontInstance {
    FontInstance {
        font_key: FontKey(3, 4),
        transformed_size: FontSize(12 << 16),
        render_mode,
        flags,
        synthetic_italics: SyntheticItalics { angle: 0 },
        color,
        variations: vec![FontVariation { tag: 1, value: 2 }],
    }
}

#[test]
fn luminance_uses_rec709_weights() {
    assert_eq!(compute_luminance(255, 0, 0), 54);
    assert_eq!(compute_luminance(0, 255, 0), 182);
    assert_eq!(compute_luminance(0, 0, 255), 18);
    assert_eq!(compute_luminance(10, 20, 30), 19);
    assert_eq!(compute_luminance(0, 0, 0), 0);
    assert_eq!(compute_luminance(255, 255, 255), 255);
}

#[test]
fn luminance_of_gray_is_the_gray() {
    for l in 0..=255u8 {
        assert_eq!(compute_luminance(l, l, l), l);
    }
}

#[test]
fn quantize_rounds_down_to_steps_of_32() {
    assert_eq!(quantize_channel(0), 0);
    assert_eq!(quantize_channel(31), 0);
    assert_eq!(quantize_channel(32), 32);
    assert_eq!(quantize_channel(100), 96);
    assert_eq!(quantize_channel(255), 224);
    for x in 0..=255u8 {
        assert_eq!(quantize_channel(quantize_channel(x)), quantize_channel(x));
    }
}

#[test]
fn color_normalisation() {
    let c = ColorU::new(255, 0, 0, 7);
    assert_eq!(c.luminance(), 54);
    assert_eq!(c.luminance_color(), ColorU { r: 54, g: 54, b: 54, a: 7 });
    assert_eq!(c.quantize(), ColorU { r: 224, g: 0, b: 0, a: 255 });
    assert_eq!(c.luminance_color().quantize(), ColorU { r: 32, g: 32, b: 32, a: 255 });
}

#[test]
fn limit_by_takes_the_lesser_mode() {
    let (mono, alpha, subpixel) =
        (FontRenderMode::Mono, FontRenderMode::Alpha, FontRenderMode::Subpixel);
    assert_eq!(subpixel.limit_by(alpha), alpha);
    assert_eq!(subpixel.limit_by(mono), mono);
    assert_eq!(subpixel.limit_by(subpixel), subpixel);
    assert_eq!(alpha.limit_by(subpixel), alpha);
    assert_eq!(alpha.limit_by(mono), mono);
    assert_eq!(alpha.limit_by(alpha), alpha);
    assert_eq!(mono.limit_by(subpixel), mono);
    assert_eq!(mono.limit_by(alpha), mono);
    assert_eq!(mono.limit_by(mono), mono);
}

#[test]
fn smoothing_mode_limits() {
    assert_eq!(SmoothingMode::Off.limit(), FontRenderMode::Alpha);
    assert_eq!(SmoothingMode::AlphaOnly.limit(), FontRenderMode::Alpha);
    assert_eq!(SmoothingMode::SubpixelCapable.limit(), FontRenderMode::Subpixel);
}

#[test]
fn synthetic_italics_enabled_by_nonzero_angle() {
    assert!(!SyntheticItalics { angle: 0 }.is_enabled());
    assert!(SyntheticItalics { angle: 14 * 256 }.is_enabled());
    assert!(SyntheticItalics { angle: -1 }.is_enabled());
}

#[test]
fn glyph_type_and_format_follow_flags_and_mode() {
    let mut f = instance(FontRenderMode::Subpixel, flags(), ColorU::new(1, 2, 3, 4));
    assert_eq!(f.glyph_type(), GlyphType::Vector);
    assert_eq!(f.get_glyph_format(), GlyphFormat::Subpixel);
    f.render_mode = FontRenderMode::Alpha;
    assert_eq!(f.get_glyph_format(), GlyphFormat::Alpha);
    f.render_mode = FontRenderMode::Mono;
    assert_eq!(f.get_glyph_format(), GlyphFormat::Alpha);
    f.flags.embedded_bitmaps = true;
    assert_eq!(f.glyph_type(), GlyphType::Bitmap);
}

#[test]
fn prepare_bitmap_instance_keeps_color() {
    let mut fl = flags();
    fl.embedded_bitmaps = true;
    fl.font_smoothing = true;
    let mut f = instance(FontRenderMode::Subpixel, fl, ColorU::new(10, 20, 30, 40));
    f.prepare(SmoothingMode::SubpixelCapable);
    let mut expected_flags = fl;
    expected_flags.subpixel_position_disabled = true;
    assert_eq!(f, instance(FontRenderMode::Mono, expected_flags, ColorU::new(10, 20, 30, 40)));
}

#[test]
fn prepare_falls_back_to_grayscale_without_smoothing() {
    let mut fl = flags();
    fl.font_smoothing = true;
    let mut f = instance(FontRenderMode::Subpixel, fl, ColorU::new(10, 20, 30, 40));
    f.prepare(SmoothingMode::Off);
    assert_eq!(f, instance(FontRenderMode::Alpha, flags(), ColorU::new(255, 255, 255, 255)));
}

#[test]
fn prepare_subpixel_on_capable_host() {
    let mut f = instance(FontRenderMode::Subpixel, flags(), ColorU::new(10, 200, 30, 40));
    f.prepare(SmoothingMode::SubpixelCapable);
    let mut fl = flags();
    fl.font_smoothing = true;
    assert_eq!(f, instance(FontRenderMode::Subpixel, fl, ColorU::new(0, 192, 0, 255)));
}

#[test]
fn prepare_subpixel_on_alpha_only_host() {
    let mut f = instance(FontRenderMode::Subpixel, flags(), ColorU::new(255, 0, 0, 7));
    f.prepare(SmoothingMode::AlphaOnly);
    let mut fl = flags();
    fl.font_smoothing = true;
    assert_eq!(f, instance(FontRenderMode::Alpha, fl, ColorU::new(32, 32, 32, 255)));
}

#[test]
fn prepare_alpha_without_request_is_left_unsmoothed() {
    let mut f = instance(FontRenderMode::Alpha, flags(), ColorU::new(255, 0, 0, 7));
    f.prepare(SmoothingMode::SubpixelCapable);
    assert_eq!(f, instance(FontRenderMode::Alpha, flags(), ColorU::new(255, 255, 255, 255)));
}

#[test]
fn prepare_mono_disables_subpixel_position() {
    let mut f = instance(FontRenderMode::Mono, flags(), ColorU::new(1, 2, 3, 4));
    f.prepare(SmoothingMode::AlphaOnly);
    let mut fl = flags();
    fl.subpixel_position_disabled = true;
    assert_eq!(f, instance(FontRenderMode::Mono, fl, ColorU::new(255, 255, 255, 255)));
}

#[test]
fn prepare_mono_with_smoothing_flag_keeps_flag_on_smoothing_host() {
    let mut fl = flags();
    fl.font_smoothing = true;
    let mut f = instance(FontRenderMode::Mono, fl, ColorU::new(1, 2, 3, 4));
    f.prepare(SmoothingMode::AlphaOnly);
    let mut expected = fl;
    expected.subpixel_position_disabled = true;
    assert_eq!(f, instance(FontRenderMode::Mono, expected, ColorU::new(255, 255, 255, 255)));
}

#[test]
fn prepare_is_idempotent_on_every_combination() {
    let modes = [FontRenderMode::Mono, FontRenderMode::Alpha, FontRenderMode::Subpixel];
    let hosts = [SmoothingMode::Off, SmoothingMode::AlphaOnly, SmoothingMode::SubpixelCapable];
    let colors = [ColorU::new(0, 0, 0, 0), ColorU::new(255, 128, 33, 200), ColorU::new(31, 32, 33, 1)];
    for mode in modes {
        for host in hosts {
            for color in colors {
                for bits in 0..8u8 {
                    let mut fl = flags();
                    fl.font_smoothing = bits & 1 != 0;
                    fl.embedded_bitmaps = bits & 2 != 0;
                    fl.subpixel_position_disabled = bits & 4 != 0;
                    let mut once = instance(mode, fl, color);
                    once.prepare(host);
                    let mut twice = once.clone();
                    twice.prepare(host);
                    assert_eq!(once, twice);
                }
            }
        }
    }
}

#[test]
fn subpixel_position_needs_flag_and_mode() {
    let mut f = instance(FontRenderMode::Alpha, flags(), ColorU::new(1, 2, 3, 4));
    assert!(f.use_subpixel_position());
    f.render_mode = FontRenderMode::Mono;
    assert!(!f.use_subpixel_position());
    f.render_mode = FontRenderMode::Subpixel;
    f.flags.subpixel_position_disabled = true;
    assert!(!f.use_subpixel_position());
}

#[test]
fn disable_subpixel_position_sets_only_that_flag() {
    let mut f = instance(FontRenderMode::Alpha, flags(), ColorU::new(1, 2, 3, 4));
    f.disable_subpixel_position();
    let mut fl = flags();
    fl.subpixel_position_disabled = true;
    assert_eq!(f, instance(FontRenderMode::Alpha, fl, ColorU::new(1, 2, 3, 4)));
}

use wr_glyph_rasterizer::color::ColorU;
use wr_glyph_rasterizer::gamma::{table_luminance, GammaLut};
use wr_glyph_rasterizer::instance::{FontRenderMode, GlyphType, SmoothingMode};
use wr_glyph_rasterizer::metrics::Size;
use wr_glyph_rasterizer::raster::{
    gamma_correct_pixels, invert_to_mask, post_process, smooth_color,
};
use wr_glyph_rasterizer::smoothing::determine_font_smoothing_mode;
use wr_glyph_rasterizer::surface::{copy_rasterized_pixels, surface_layout, SurfaceLayout};

fn shifted_tables() -> Vec<Vec<u8>> {
    (0..8u32)
        .map(|j| (0..256u32).map(|i| if i == 255 { 255 } else { ((i + 10 * j) % 255) as u8 }).collect())
        .collect()
}

fn reversed() -> Vec<u8> {
    (0..256u32).map(|i| if i == 0 { 0 } else { (255 - i) as u8 }).collect()
}

fn shifted_lut() -> GammaLut {
    GammaLut::new(shifted_tables(), reversed()).unwrap()
}

fn identity_lut() -> GammaLut {
    let identity: Vec<u8> = (0..256u32).map(|i| i as u8).collect();
    GammaLut::new(vec![identity.clone(); 8], identity).unwrap()
}

#[test]
fn lut_rejects_wrong_shapes() {
    assert!(GammaLut::new(shifted_tables(), reversed()).is_some());
    assert!(GammaLut::new(vec![], reversed()).is_none());
    assert!(GammaLut::new(shifted_tables(), vec![0; 255]).is_none());
    let mut seven = shifted_tables();
    seven.pop();
    assert!(GammaLut::new(seven, reversed()).is_none());
    let mut short = shifted_tables();
    short[5].pop();
    assert!(GammaLut::new(short, reversed()).is_none());
    let mut nine = shifted_tables();
    nine.push(vec![255; 256]);
    assert!(GammaLut::new(nine, reversed()).is_none());
}

#[test]
fn lut_rejects_tables_that_lose_full_coverage() {
    let mut dim = shifted_tables();
    dim[3][255] = 254;
    assert!(GammaLut::new(dim, reversed()).is_none());
    let mut gray = reversed();
    gray[0] = 1;
    assert!(GammaLut::new(shifted_tables(), gray).is_none());
    let mut other = shifted_tables();
    other[3][254] = 0;
    let mut inverse = reversed();
    inverse[255] = 9;
    assert!(GammaLut::new(other, inverse).is_some());
}

#[test]
fn table_luminance_repeats_the_index_bits() {
    let values: Vec<u8> = (0..8).map(table_luminance).collect();
    assert_eq!(values, vec![0, 36, 73, 109, 146, 182, 219, 255]);
}

#[test]
fn convert_to_linear_leaves_alpha_alone() {
    let mut pixels = vec![10, 20, 30, 99, 0, 255, 128, 7];
    shifted_lut().convert_to_linear(&mut pixels);
    assert_eq!(pixels, vec![245, 235, 225, 99, 0, 0, 127, 7]);
}

#[test]
fn preblend_uses_one_table_per_channel() {
    let mut pixels = vec![10, 20, 30, 99];
    shifted_lut().preblend(&mut pixels, ColorU::new(0x20, 0x40, 0xFF, 0));
    assert_eq!(pixels, vec![80, 40, 40, 40]);
}

#[test]
fn preblend_grayscale_collapses_to_corrected_luminance() {
    let mut pixels = vec![10, 20, 30, 99, 255, 255, 255, 0];
    shifted_lut().preblend_grayscale(&mut pixels, ColorU::new(0, 0x40, 0, 0));
    assert_eq!(pixels, vec![41, 41, 41, 41, 255, 255, 255, 255]);
}

#[test]
fn passes_accept_empty_buffers() {
    let lut = shifted_lut();
    let mut pixels: Vec<u8> = vec![];
    lut.convert_to_linear(&mut pixels);
    lut.preblend(&mut pixels, ColorU::new(1, 2, 3, 4));
    lut.preblend_grayscale(&mut pixels, ColorU::new(1, 2, 3, 4));
    invert_to_mask(&mut pixels);
    assert!(pixels.is_empty());
}

#[test]
fn invert_sets_alpha_to_inverted_green() {
    let mut pixels = vec![10, 20, 30, 99, 255, 0, 255, 0];
    invert_to_mask(&mut pixels);
    assert_eq!(pixels, vec![245, 235, 225, 235, 0, 255, 0, 255]);
}

#[test]
fn smooth_color_darkens_by_render_mode() {
    let c = ColorU::new(200, 100, 7, 9);
    assert_eq!(smooth_color(c, FontRenderMode::Subpixel), ColorU::new(150, 75, 6, 9));
    assert_eq!(smooth_color(c, FontRenderMode::Alpha), ColorU::new(100, 50, 3, 9));
    assert_eq!(smooth_color(c, FontRenderMode::Mono), c);
    assert_eq!(
        smooth_color(ColorU::new(255, 255, 255, 255), FontRenderMode::Alpha),
        ColorU::new(127, 127, 127, 255)
    );
    assert_eq!(
        smooth_color(ColorU::new(255, 255, 255, 255), FontRenderMode::Subpixel),
        ColorU::new(192, 192, 192, 255)
    );
}

#[test]
fn gamma_correct_by_render_mode() {
    let lut = shifted_lut();
    let color = ColorU::new(0x40, 0x80, 0xFF, 0);
    let mut mono = vec![10, 20, 30, 99];
    gamma_correct_pixels(&lut, &mut mono, FontRenderMode::Mono, color);
    assert_eq!(mono, vec![10, 20, 30, 99]);
    // Three quarters of the colour: (0x30, 0x60, 0xC0) selects tables 1, 3 and 6.
    let mut sub = vec![10, 20, 30, 99];
    gamma_correct_pixels(&lut, &mut sub, FontRenderMode::Subpixel, color);
    assert_eq!(sub, vec![70, 50, 40, 50]);
    // Half of the colour: the green 0x40 selects table 2.
    let mut alpha = vec![10, 20, 30, 99];
    gamma_correct_pixels(&lut, &mut alpha, FontRenderMode::Alpha, color);
    assert_eq!(alpha, vec![41, 41, 41, 41]);
}

#[test]
fn post_process_leaves_bitmaps_alone() {
    let mut pixels = vec![10, 20, 30, 99];
    post_process(
        &mut pixels,
        GlyphType::Bitmap,
        true,
        &shifted_lut(),
        FontRenderMode::Subpixel,
        ColorU::new(1, 2, 3, 4),
    );
    assert_eq!(pixels, vec![10, 20, 30, 99]);
}

#[test]
fn post_process_without_smoothing_only_inverts() {
    let mut pixels = vec![10, 20, 30, 99];
    post_process(
        &mut pixels,
        GlyphType::Vector,
        false,
        &shifted_lut(),
        FontRenderMode::Alpha,
        ColorU::new(1, 2, 3, 4),
    );
    assert_eq!(pixels, vec![245, 235, 225, 235]);
}

#[test]
fn post_process_with_smoothing_goes_through_linear_space() {
    // Linear: (245, 235, 225); inverted: (10, 20, 30, 20); tables 0, 0, 0.
    let mut pixels = vec![10, 20, 30, 99];
    post_process(
        &mut pixels,
        GlyphType::Vector,
        true,
        &shifted_lut(),
        FontRenderMode::Subpixel,
        ColorU::new(1, 2, 3, 4),
    );
    assert_eq!(pixels, vec![10, 20, 30, 20]);
}

#[test]
fn post_process_alpha_with_smoothing_halves_the_colour() {
    // Linear: (245, 235, 225); inverted: (10, 20, 30, 20); brightness 21;
    // half of the green 0xFF selects table 3.
    let mut pixels = vec![10, 20, 30, 99];
    post_process(
        &mut pixels,
        GlyphType::Vector,
        true,
        &shifted_lut(),
        FontRenderMode::Alpha,
        ColorU::new(0, 0xFF, 0, 4),
    );
    assert_eq!(pixels, vec![51, 51, 51, 51]);
}

#[test]
fn full_coverage_keeps_full_alpha() {
    for lut in [identity_lut(), shifted_lut()] {
        for (smooth, mode) in [
            (false, FontRenderMode::Alpha),
            (false, FontRenderMode::Mono),
            (true, FontRenderMode::Alpha),
            (true, FontRenderMode::Subpixel),
        ] {
            let mut pixels = vec![0, 0, 0, 3];
            post_process(
                &mut pixels,
                GlyphType::Vector,
                smooth,
                &lut,
                mode,
                ColorU::new(255, 255, 255, 255),
            );
            assert_eq!(pixels, vec![255, 255, 255, 255]);
        }
    }
}

#[test]
fn no_coverage_gives_an_empty_mask_with_identity_tables() {
    for (smooth, mode) in [
        (false, FontRenderMode::Alpha),
        (true, FontRenderMode::Alpha),
        (true, FontRenderMode::Subpixel),
    ] {
        let mut pixels = vec![255, 255, 255, 3];
        post_process(
            &mut pixels,
            GlyphType::Vector,
            smooth,
            &identity_lut(),
            mode,
            ColorU::new(255, 255, 255, 255),
        );
        assert_eq!(pixels, vec![0, 0, 0, 0]);
    }
}

#[test]
fn probe_sees_subpixel_rendering() {
    let smooth = [10, 10, 10, 0, 10, 11, 10, 0];
    let gray = [10, 10, 10, 0, 10, 10, 10, 0];
    assert_eq!(determine_font_smoothing_mode(&smooth, &gray), SmoothingMode::SubpixelCapable);
}

#[test]
fn probe_sees_subpixel_rendering_after_dilation() {
    let smooth = [12, 12, 12, 0, 10, 10, 11, 0];
    let gray = [10, 10, 10, 0, 10, 10, 10, 0];
    assert_eq!(determine_font_smoothing_mode(&smooth, &gray), SmoothingMode::SubpixelCapable);
}

#[test]
fn probe_sees_grayscale_dilation() {
    let smooth = [10, 10, 10, 0, 12, 12, 12, 0];
    let gray = [10, 10, 10, 0, 10, 10, 10, 0];
    assert_eq!(determine_font_smoothing_mode(&smooth, &gray), SmoothingMode::AlphaOnly);
}

#[test]
fn probe_ignores_the_fourth_byte() {
    let smooth = [10, 10, 10, 1, 12, 12, 12, 2];
    let gray = [10, 10, 10, 3, 12, 12, 12, 4];
    assert_eq!(determine_font_smoothing_mode(&smooth, &gray), SmoothingMode::Off);
}

#[test]
fn probe_compares_only_common_pixels() {
    let smooth = [10, 10, 10, 0, 1, 2, 3, 0];
    let gray = [10, 10, 10, 0];
    assert_eq!(determine_font_smoothing_mode(&smooth, &gray), SmoothingMode::Off);
    assert_eq!(determine_font_smoothing_mode(&[], &[]), SmoothingMode::Off);
}

#[test]
fn read_back_takes_the_last_rows() {
    let data: Vec<u8> = (0..32).collect();
    let surface = Size { width: 4, height: 2 };
    assert_eq!(
        copy_rasterized_pixels(&data, surface, Size { width: 2, height: 1 }),
        (16..24).collect::<Vec<u8>>()
    );
    assert_eq!(
        copy_rasterized_pixels(&data, surface, Size { width: 1, height: 2 }),
        vec![0, 1, 2, 3, 16, 17, 18, 19]
    );
    assert_eq!(copy_rasterized_pixels(&data, surface, surface), data);
    assert_eq!(copy_rasterized_pixels(&data, surface, Size { width: 0, height: 2 }), vec![]);
    assert_eq!(copy_rasterized_pixels(&data, surface, Size { width: 3, height: 0 }), vec![]);
}

#[test]
fn surface_layout_by_glyph_type() {
    assert_eq!(
        surface_layout(&Size { width: 64, height: 32 }, GlyphType::Vector),
        SurfaceLayout {
            width: 64,
            height: 32,
            bits_per_component: 8,
            bytes_per_row: 256,
            opaque: true
        }
    );
    assert_eq!(
        surface_layout(&Size { width: 0x8000_0000, height: 1 }, GlyphType::Bitmap),
        SurfaceLayout {
            width: 0x8000_0000,
            height: 1,
            bits_per_component: 8,
            bytes_per_row: 0x2_0000_0000,
            opaque: false
        }
    );
}

use wr_glyph_rasterizer::instance::GlyphType;
use wr_glyph_rasterizer::metrics::Size;
use wr_glyph_rasterizer::surface::{next_power_of_two, SurfacePool};

#[test]
fn next_power_of_two_rounds_up() {
    assert_eq!(next_power_of_two(0), 1);
    assert_eq!(next_power_of_two(1), 1);
    assert_eq!(next_power_of_two(2), 2);
    assert_eq!(next_power_of_two(3), 4);
    assert_eq!(next_power_of_two(5), 8);
    assert_eq!(next_power_of_two(40), 64);
    assert_eq!(next_power_of_two(0x4000_0001), 0x8000_0000);
    assert_eq!(next_power_of_two(0x8000_0000), 0x8000_0000);
}

#[test]
fn pool_grows_to_componentwise_maximum() {
    let mut pool = SurfacePool::new();
    assert_eq!(pool.context_size(GlyphType::Vector), Size { width: 1, height: 1 });
    let a = pool.get_context(&Size { width: 10, height: 10 }, GlyphType::Vector);
    assert_eq!(a.size, Size { width: 16, height: 16 });
    assert!(a.reallocate);
    let b = pool.get_context(&Size { width: 5, height: 5 }, GlyphType::Vector);
    assert_eq!(b.size, Size { width: 16, height: 16 });
    assert!(!b.reallocate);
    let c = pool.get_context(&Size { width: 40, height: 3 }, GlyphType::Vector);
    assert_eq!(c.size, Size { width: 64, height: 16 });
    assert!(c.reallocate);
    assert_eq!(pool.context_size(GlyphType::Vector), Size { width: 64, height: 16 });
    assert_eq!(pool.context_size(GlyphType::Bitmap), Size { width: 1, height: 1 });
}

#[test]
fn fresh_pool_serves_the_smallest_request_without_growing() {
    let mut pool = SurfacePool::new();
    let zero = pool.get_context(&Size { width: 0, height: 0 }, GlyphType::Bitmap);
    assert_eq!(zero.size, Size { width: 1, height: 1 });
    assert!(!zero.reallocate);
    let one = pool.get_context(&Size { width: 1, height: 1 }, GlyphType::Bitmap);
    assert_eq!(one.size, Size { width: 1, height: 1 });
    assert!(!one.reallocate);
    let tall = pool.get_context(&Size { width: 1, height: 3 }, GlyphType::Bitmap);
    assert_eq!(tall.size, Size { width: 1, height: 4 });
    assert!(tall.reallocate);
}

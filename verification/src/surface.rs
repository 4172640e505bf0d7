//! The pool of drawing surfaces.
//!
//! Glyphs are drawn into one of two long-lived surfaces, one for outlines and
//! one for embedded bitmaps. A surface is replaced by a larger one when a
//! glyph does not fit, and is never made smaller. This module keeps the
//! sizes, decides when to grow, and copies a glyph's pixels out of a
//! surface's memory; the surfaces themselves belong to the drawing service.

use vstd::prelude::*;
use vstd::arithmetic::div_mod::lemma_fundamental_div_mod_converse;
use crate::instance::GlyphType;
use crate::metrics::Size;

verus! {

/// Side length of both surfaces before any glyph was asked for: the
/// smallest there is, so that a surface is never larger than its requests
/// made it.
pub const INITIAL_SIDE_LENGTH: u32 = 1;

/// The largest side length that can be rounded up to a power of two.
pub const MAX_SIDE_LENGTH: u32 = 0x8000_0000;

/// Whether `n` is a power of two.
pub open spec fn is_power_of_two(n: nat) -> bool
    decreases n,
{
    n == 1 || (n > 1 && n % 2 == 0 && is_power_of_two(n / 2))
}

/// The first of `p`, `2p`, `4p`, ... that is not below `x`.
pub open spec fn doubled_until(x: nat, p: nat) -> nat
    decreases
            (if p < x {
                x - p
            } else {
                0
            }),
{
    if p >= x || p == 0 {
        p
    } else {
        doubled_until(x, 2 * p)
    }
}

/// The smallest power of two that is not below `x`.
pub open spec fn rounded_up(x: nat) -> nat {
    doubled_until(x, 1)
}

/// The larger of two side lengths.
pub open spec fn larger(a: u32, b: u32) -> u32 {
    if a >= b {
        a
    } else {
        b
    }
}

/// The size of a surface after a request: in each dimension the larger of
/// what the surface has and the request rounded up to a power of two.
pub open spec fn grown(current: Size, request: Size) -> Size {
    Size {
        width: larger(current.width, rounded_up(request.width as nat) as u32),
        height: larger(current.height, rounded_up(request.height as nat) as u32),
    }
}

/// The size of a surface after a series of requests.
pub open spec fn grown_by_all(current: Size, requests: Seq<Size>) -> Size
    decreases requests.len(),
{
    if requests.len() == 0 {
        current
    } else {
        grown(grown_by_all(current, requests.drop_last()), requests.last())
    }
}

/// The largest width among the requests, or zero where there are none.
pub open spec fn widest(requests: Seq<Size>) -> nat
    decreases requests.len(),
{
    if requests.len() == 0 {
        0
    } else {
        let earlier = widest(requests.drop_last());
        if earlier >= requests.last().width {
            earlier
        } else {
            requests.last().width as nat
        }
    }
}

/// The largest height among the requests, or zero where there are none.
pub open spec fn tallest(requests: Seq<Size>) -> nat
    decreases requests.len(),
{
    if requests.len() == 0 {
        0
    } else {
        let earlier = tallest(requests.drop_last());
        if earlier >= requests.last().height {
            earlier
        } else {
            requests.last().height as nat
        }
    }
}

/// The pixels of a glyph of the given size, read out of the memory of a
/// surface: the leftmost pixels of the surface's last rows, row by row.
pub open spec fn read_back(data: Seq<u8>, surface: Size, size: Size) -> Seq<u8> {
    let row_len = 4 * size.width;
    let stride = 4 * surface.width;
    Seq::new(
        (row_len * size.height) as nat,
        |i: int| data[(surface.height - size.height + i / row_len) * stride + i % row_len],
    )
}

/// How a surface is to be created.
#[derive(Clone, Copy, Debug, PartialEq, Eq, Structural, Hash)]
pub struct SurfaceLayout {
    pub width: u32,
    pub height: u32,
    pub bits_per_component: u32,
    pub bytes_per_row: u64,
    /// Whether the surface is declared to have no alpha channel. The fourth
    /// byte of a pixel of such a surface holds nothing of meaning after a
    /// draw.
    pub opaque: bool,
}

/// What a request for a surface came to.
#[derive(Clone, Copy, Debug, PartialEq, Eq, Structural, Hash)]
pub struct Acquired {
    /// The size of the surface to draw into.
    pub size: Size,
    /// Whether the surface has to be created anew at that size.
    pub reallocate: bool,
}

/// The sizes of the two pooled surfaces.
#[derive(Debug)]
pub struct SurfacePool {
    vector_context_size: Size,
    bitmap_context_size: Size,
}

/// `rounded_up(x)` is a power of two, not below `x`, and less than twice `x`.
pub proof fn lemma_rounded_up(x: nat)
    ensures
        is_power_of_two(rounded_up(x)),
        x <= rounded_up(x),
        x >= 1 ==> rounded_up(x) < 2 * x,
        x <= 1 ==> rounded_up(x) == 1,
{
    lemma_doubled_until(x, 1);
}

proof fn lemma_doubled_until(x: nat, p: nat)
    requires
        is_power_of_two(p),
        p == 1 || p < 2 * x,
    ensures
        is_power_of_two(doubled_until(x, p)),
        x <= doubled_until(x, p),
        p <= doubled_until(x, p),
        x >= 1 ==> doubled_until(x, p) < 2 * x,
        x <= 1 ==> doubled_until(x, p) == p,
    decreases
            (if p < x {
                x - p
            } else {
                0
            }),
{
    if p < x {
        assert(is_power_of_two(2 * p)) by {
            assert((2 * p) / 2 == p);
        }
        lemma_doubled_until(x, 2 * p);
    }
}

/// Among the powers of two that are not below `x`, `rounded_up(x)` is the
/// smallest.
pub proof fn lemma_rounded_up_least(x: nat, p: nat)
    requires
        is_power_of_two(p),
        x <= p,
    ensures
        rounded_up(x) <= p,
{
    lemma_rounded_up(x);
    if p < rounded_up(x) {
        lemma_powers_of_two_apart(rounded_up(x), p);
    }
}

/// Rounding up keeps the order of what it rounds.
pub proof fn lemma_rounded_up_monotonic(x: nat, y: nat)
    requires
        x <= y,
    ensures
        rounded_up(x) <= rounded_up(y),
{
    lemma_rounded_up(y);
    lemma_rounded_up_least(x, rounded_up(y));
}

/// Of two powers of two, the larger is at least twice the smaller.
proof fn lemma_powers_of_two_apart(a: nat, b: nat)
    requires
        is_power_of_two(a),
        is_power_of_two(b),
        b < a,
    ensures
        2 * b <= a,
    decreases a,
{
    if b > 1 {
        lemma_powers_of_two_apart(a / 2, b / 2);
    }
}

/// Rounds a side length up to a power of two.
pub fn next_power_of_two(x: u32) -> (p: u32)
    requires
        x <= MAX_SIDE_LENGTH,
    ensures
        p == rounded_up(x as nat),
        p <= MAX_SIDE_LENGTH,
{
    let mut p: u32 = 1;
    proof {
        lemma_rounded_up(x as nat);
        lemma_initial_is_power_of_two();
        lemma_rounded_up_least(x as nat, MAX_SIDE_LENGTH as nat);
    }
    while p < x
        invariant
            1 <= p <= rounded_up(x as nat) <= MAX_SIDE_LENGTH,
            doubled_until(x as nat, p as nat) == rounded_up(x as nat),
        decreases MAX_SIDE_LENGTH - p,
    {
        proof {
            lemma_doubling_bounded(x as nat, p as nat);
        }
        p = 2 * p;
    }
    p
}

proof fn lemma_doubling_bounded(x: nat, p: nat)
    requires
        1 <= p < x,
    ensures
        2 * p <= doubled_until(x, p),
        doubled_until(x, p) == doubled_until(x, 2 * p),
{
    lemma_doubled_from(x, 2 * p);
}

proof fn lemma_doubled_from(x: nat, p: nat)
    ensures
        p <= doubled_until(x, p),
    decreases
            (if p < x {
                x - p
            } else {
                0
            }),
{
    if p < x && p != 0 {
        lemma_doubled_from(x, 2 * p);
    }
}

/// Copies the pixels of a glyph of size `size` out of the memory `data` of a
/// surface of size `surface`.
pub fn copy_rasterized_pixels(data: &[u8], surface: Size, size: Size) -> (pixels: Vec<u8>)
    requires
        size.width <= surface.width,
        size.height <= surface.height,
        data.len() == 4 * surface.width * surface.height,
    ensures
        pixels@ == read_back(data@, surface, size),
        pixels@.len() == 4 * size.width * size.height,
{
    let mut result: Vec<u8> = Vec::new();
    if size.width == 0 || size.height == 0 {
        assert(4 * size.width * size.height == 0) by (nonlinear_arith)
            requires
                size.width == 0 || size.height == 0,
        ;
        assert(result@ =~= read_back(data@, surface, size));
        return result;
    }
    assert(4 * surface.width <= 4 * surface.width * surface.height) by (nonlinear_arith)
        requires
            surface.height >= 1,
    ;
    let row_len: usize = 4 * (size.width as usize);
    let stride: usize = 4 * (surface.width as usize);
    let height: usize = size.height as usize;
    let first_row: usize = (surface.height - size.height) as usize;
    let mut row: usize = 0;
    while row < height
        invariant
            row <= height,
            height == size.height,
            size.height <= surface.height,
            first_row == surface.height - size.height,
            row_len == 4 * size.width,
            0 < row_len <= stride,
            stride == 4 * surface.width,
            data.len() == stride * surface.height,
            result@.len() == row * row_len,
            forall|i: int|
                0 <= i < result@.len() ==> #[trigger] result@[i] == data@[(first_row + i / (
                row_len as int)) * stride + i % (row_len as int)],
        decreases height - row,
    {
        let start: usize = {
            assert((first_row + row) * stride + stride <= stride * surface.height)
                by (nonlinear_arith)
                requires
                    first_row + row < surface.height,
            ;
            (first_row + row) * stride
        };
        let mut j: usize = 0;
        while j < row_len
            invariant
                j <= row_len,
                row < height,
                0 < row_len <= stride,
                start == (first_row + row) * stride,
                start + stride <= data.len(),
                result@.len() == row * row_len + j,
                forall|i: int|
                    0 <= i < result@.len() ==> #[trigger] result@[i] == data@[(first_row + i / (
                    row_len as int)) * stride + i % (row_len as int)],
            decreases row_len - j,
        {
            proof {
                lemma_fundamental_div_mod_converse(
                    row * row_len + j,
                    row_len as int,
                    row as int,
                    j as int,
                );
            }
            result.push(data[start + j]);
            j += 1;
        }
        assert((row + 1) * row_len == row * row_len + row_len) by (nonlinear_arith);
        row += 1;
    }
    assert(4 * size.width * size.height == row * row_len) by (nonlinear_arith)
        requires
            row == size.height,
            row_len == 4 * size.width,
    ;
    assert(result@ =~= read_back(data@, surface, size));
    result
}

impl SurfacePool {
    /// The size of the surface for glyphs of the given kind.
    pub closed spec fn size_of(&self, glyph_type: GlyphType) -> Size {
        match glyph_type {
            GlyphType::Vector => self.vector_context_size,
            GlyphType::Bitmap => self.bitmap_context_size,
        }
    }

    /// Whether a size is one that the pool can have: both sides are powers of
    /// two, up to the largest one.
    pub open spec fn pooled(size: Size) -> bool {
        &&& is_power_of_two(size.width as nat)
        &&& is_power_of_two(size.height as nat)
        &&& INITIAL_SIDE_LENGTH <= size.width <= MAX_SIDE_LENGTH
        &&& INITIAL_SIDE_LENGTH <= size.height <= MAX_SIDE_LENGTH
    }

    pub open spec fn wf(&self) -> bool {
        &&& SurfacePool::pooled(self.size_of(GlyphType::Vector))
        &&& SurfacePool::pooled(self.size_of(GlyphType::Bitmap))
    }

    /// A pool whose two surfaces have the initial size of one pixel.
    pub fn new() -> (pool: SurfacePool)
        ensures
            pool.wf(),
            forall|t: GlyphType| #[trigger]
                pool.size_of(t) == (Size {
                    width: INITIAL_SIDE_LENGTH,
                    height: INITIAL_SIDE_LENGTH,
                }),
    {
        let size = Size { width: INITIAL_SIDE_LENGTH, height: INITIAL_SIDE_LENGTH };
        proof {
            lemma_initial_is_power_of_two();
        }
        SurfacePool { vector_context_size: size, bitmap_context_size: size }
    }

    /// The present size of the surface for glyphs of the given kind.
    pub fn context_size(&self, glyph_type: GlyphType) -> (size: Size)
        ensures
            size == self.size_of(glyph_type),
    {
        match glyph_type {
            GlyphType::Vector => self.vector_context_size,
            GlyphType::Bitmap => self.bitmap_context_size,
        }
    }

    /// Asks for a surface of at least `size` for glyphs of the given kind.
    /// The surface of that kind grows to `grown(..)` of its size and the
    /// request, and has to be created anew exactly when that changes its
    /// size; the other surface is not touched.
    pub fn get_context(&mut self, size: &Size, glyph_type: GlyphType) -> (r: Acquired)
        requires
            old(self).wf(),
            size.width <= MAX_SIDE_LENGTH,
            size.height <= MAX_SIDE_LENGTH,
        ensures
            final(self).wf(),
            final(self).size_of(glyph_type) == grown(old(self).size_of(glyph_type), *size),
            forall|t: GlyphType|
                t != glyph_type ==> #[trigger] final(self).size_of(t) == old(self).size_of(t),
            r.size == final(self).size_of(glyph_type),
            r.reallocate == (final(self).size_of(glyph_type) != old(self).size_of(glyph_type)),
            r.size.width >= size.width,
            r.size.height >= size.height,
            r.size.width >= old(self).size_of(glyph_type).width,
            r.size.height >= old(self).size_of(glyph_type).height,
    {
        let cached_size = self.context_size(glyph_type);
        let rounded_size = Size {
            width: next_power_of_two(size.width),
            height: next_power_of_two(size.height),
        };
        proof {
            lemma_rounded_up(size.width as nat);
            lemma_rounded_up(size.height as nat);
        }
        if rounded_size.width > cached_size.width || rounded_size.height > cached_size.height {
            let new_size = Size {
                width: if cached_size.width >= rounded_size.width {
                    cached_size.width
                } else {
                    rounded_size.width
                },
                height: if cached_size.height >= rounded_size.height {
                    cached_size.height
                } else {
                    rounded_size.height
                },
            };
            match glyph_type {
                GlyphType::Vector => {
                    self.vector_context_size = new_size;
                },
                GlyphType::Bitmap => {
                    self.bitmap_context_size = new_size;
                },
            }
            Acquired { size: new_size, reallocate: true }
        } else {
            Acquired { size: cached_size, reallocate: false }
        }
    }

    /// Copies the pixels of a glyph of size `size` out of the memory of the
    /// surface for glyphs of the given kind.
    pub fn get_rasterized_pixels(&self, data: &[u8], size: &Size, glyph_type: GlyphType) -> (pixels:
        Vec<u8>)
        requires
            size.width <= self.size_of(glyph_type).width,
            size.height <= self.size_of(glyph_type).height,
            data.len() == 4 * self.size_of(glyph_type).width * self.size_of(glyph_type).height,
        ensures
            pixels@ == read_back(data@, self.size_of(glyph_type), *size),
            pixels@.len() == 4 * size.width * size.height,
    {
        copy_rasterized_pixels(data, self.context_size(glyph_type), *size)
    }
}

/// How the surface for glyphs of the given kind is created at a given size:
/// eight bits per channel, four bytes per pixel, rows packed. Outlines are
/// drawn on an opaque ground, so their surface is declared opaque; bitmaps
/// need their alpha channel.
pub fn surface_layout(size: &Size, glyph_type: GlyphType) -> (layout: SurfaceLayout)
    ensures
        layout == (SurfaceLayout {
            width: size.width,
            height: size.height,
            bits_per_component: 8,
            bytes_per_row: (4 * size.width) as u64,
            opaque: glyph_type == GlyphType::Vector,
        }),
{
    SurfaceLayout {
        width: size.width,
        height: size.height,
        bits_per_component: 8,
        bytes_per_row: 4 * (size.width as u64),
        opaque: match glyph_type {
            GlyphType::Vector => true,
            GlyphType::Bitmap => false,
        },
    }
}

proof fn lemma_initial_is_power_of_two()
    ensures
        is_power_of_two(INITIAL_SIDE_LENGTH as nat),
        is_power_of_two(MAX_SIDE_LENGTH as nat),
{
    reveal_with_fuel(is_power_of_two, 34);
}

/// Reading back by rows and columns. Counting rows from the top of the
/// glyph's rectangle, the pixel in row `row` and column `col` of what is
/// read back is the surface's pixel in the same column of the row that lies
/// `size.height - row` rows before the surface's end.
pub proof fn lemma_read_back_pixel(
    data: Seq<u8>,
    surface: Size,
    size: Size,
    row: int,
    col: int,
    channel: int,
)
    requires
        0 <= row < size.height,
        0 <= col < size.width,
        0 <= channel < 4,
    ensures
        0 <= (row * size.width + col) * 4 + channel < read_back(data, surface, size).len(),
        read_back(data, surface, size)[(row * size.width + col) * 4 + channel] == data[((
        surface.height - size.height + row) * surface.width + col) * 4 + channel],
{
    let row_len = 4 * size.width;
    let i = (row * size.width + col) * 4 + channel;
    assert(i == row * row_len + (4 * col + channel)) by (nonlinear_arith)
        requires
            i == (row * size.width + col) * 4 + channel,
            row_len == 4 * size.width,
    ;
    assert(i < row_len * size.height) by (nonlinear_arith)
        requires
            i == row * row_len + (4 * col + channel),
            0 <= 4 * col + channel < row_len,
            0 <= row < size.height,
    ;
    assert(0 <= i) by (nonlinear_arith)
        requires
            i == row * row_len + (4 * col + channel),
            0 <= 4 * col + channel,
            0 <= row,
            0 <= row_len,
    ;
    lemma_fundamental_div_mod_converse(i, row_len as int, row, 4 * col + channel);
    let y = surface.height - size.height + row;
    assert(y * (4 * surface.width) + (4 * col + channel) == (y * surface.width + col) * 4
        + channel) by (nonlinear_arith);
}

/// Monotonic growth from a fresh pool. After any series of requests, a
/// surface that started at the initial size is exactly as large as the
/// largest request, each dimension rounded up to a power of two.
pub proof fn lemma_fresh_pool_is_rounded_maximum(requests: Seq<Size>)
    requires
        forall|k: int|
            0 <= k < requests.len() ==> (#[trigger] requests[k]).width <= MAX_SIDE_LENGTH
                && requests[k].height <= MAX_SIDE_LENGTH,
    ensures
        widest(requests) <= MAX_SIDE_LENGTH,
        tallest(requests) <= MAX_SIDE_LENGTH,
        grown_by_all(
            Size { width: INITIAL_SIDE_LENGTH, height: INITIAL_SIDE_LENGTH },
            requests,
        ) == (Size {
            width: rounded_up(widest(requests)) as u32,
            height: rounded_up(tallest(requests)) as u32,
        }),
        rounded_up(widest(requests)) <= MAX_SIDE_LENGTH,
        rounded_up(tallest(requests)) <= MAX_SIDE_LENGTH,
    decreases requests.len(),
{
    lemma_initial_is_power_of_two();
    lemma_rounded_up(0);
    if requests.len() > 0 {
        let earlier = requests.drop_last();
        let last = requests.last();
        assert(last == requests[requests.len() - 1]);
        assert forall|k: int| 0 <= k < earlier.len() implies (#[trigger] earlier[k]).width
            <= MAX_SIDE_LENGTH && earlier[k].height <= MAX_SIDE_LENGTH by {
            assert(earlier[k] == requests[k]);
        }
        lemma_fresh_pool_is_rounded_maximum(earlier);
        lemma_rounded_up(last.width as nat);
        lemma_rounded_up(last.height as nat);
        lemma_rounded_up_least(last.width as nat, MAX_SIDE_LENGTH as nat);
        lemma_rounded_up_least(last.height as nat, MAX_SIDE_LENGTH as nat);
        if widest(earlier) >= last.width {
            lemma_rounded_up_monotonic(last.width as nat, widest(earlier));
        } else {
            lemma_rounded_up_monotonic(widest(earlier), last.width as nat);
        }
        if tallest(earlier) >= last.height {
            lemma_rounded_up_monotonic(last.height as nat, tallest(earlier));
        } else {
            lemma_rounded_up_monotonic(tallest(earlier), last.height as nat);
        }
    }
    lemma_rounded_up_least(widest(requests), MAX_SIDE_LENGTH as nat);
    lemma_rounded_up_least(tallest(requests), MAX_SIDE_LENGTH as nat);
}

/// Growth never shrinks a surface, covers the request, and is the smallest
/// size that does both with the request rounded to powers of two.
pub proof fn lemma_grown(current: Size, request: Size)
    requires
        request.width <= MAX_SIDE_LENGTH,
        request.height <= MAX_SIDE_LENGTH,
    ensures
        grown(current, request).width >= current.width,
        grown(current, request).height >= current.height,
        grown(current, request).width >= request.width,
        grown(current, request).height >= request.height,
        grown(current, request).width >= rounded_up(request.width as nat),
        grown(current, request).height >= rounded_up(request.height as nat),
        grown(current, request).width == current.width || grown(current, request).width
            == rounded_up(request.width as nat),
        grown(current, request).height == current.height || grown(current, request).height
            == rounded_up(request.height as nat),
        SurfacePool::pooled(current) ==> SurfacePool::pooled(grown(current, request)),
        grown(grown(current, request), request) == grown(current, request),
{
    lemma_rounded_up(request.width as nat);
    lemma_rounded_up(request.height as nat);
    lemma_initial_is_power_of_two();
    lemma_rounded_up_least(request.width as nat, MAX_SIDE_LENGTH as nat);
    lemma_rounded_up_least(request.height as nat, MAX_SIDE_LENGTH as nat);
}

/// Monotonic growth. After any series of requests a surface is, in each
/// dimension, exactly as large as the largest of its first size and the
/// requests rounded up to powers of two: at least as large as each of them,
/// and equal to one of them.
pub proof fn lemma_grown_by_all(current: Size, requests: Seq<Size>)
    requires
        forall|k: int|
            0 <= k < requests.len() ==> (#[trigger] requests[k]).width <= MAX_SIDE_LENGTH
                && requests[k].height <= MAX_SIDE_LENGTH,
    ensures
        ({
            let size = grown_by_all(current, requests);
            &&& size.width >= current.width
            &&& size.height >= current.height
            &&& forall|k: int|
                0 <= k < requests.len() ==> size.width >= rounded_up(
                    (#[trigger] requests[k]).width as nat,
                ) && size.height >= rounded_up(requests[k].height as nat)
            &&& size.width == current.width || exists|k: int|
                0 <= k < requests.len() && size.width == rounded_up(
                    (#[trigger] requests[k]).width as nat,
                )
            &&& size.height == current.height || exists|k: int|
                0 <= k < requests.len() && size.height == rounded_up(
                    (#[trigger] requests[k]).height as nat,
                )
            &&& SurfacePool::pooled(current) ==> SurfacePool::pooled(size)
        }),
    decreases requests.len(),
{
    if requests.len() > 0 {
        let earlier = requests.drop_last();
        let before = grown_by_all(current, earlier);
        let size = grown_by_all(current, requests);
        let last = requests.last();
        assert(last == requests[requests.len() - 1]);
        assert forall|k: int| 0 <= k < earlier.len() implies (#[trigger] earlier[k]).width
            <= MAX_SIDE_LENGTH && earlier[k].height <= MAX_SIDE_LENGTH by {
            assert(earlier[k] == requests[k]);
        }
        lemma_grown_by_all(current, earlier);
        lemma_grown(before, last);
        assert forall|k: int| 0 <= k < requests.len() implies size.width >= rounded_up(
            (#[trigger] requests[k]).width as nat,
        ) && size.height >= rounded_up(requests[k].height as nat) by {
            if k < earlier.len() {
                assert(earlier[k] == requests[k]);
            }
        }
        if size.width != current.width {
            if size.width == before.width {
                let k = choose|k: int|
                    0 <= k < earlier.len() && before.width == rounded_up(
                        (#[trigger] earlier[k]).width as nat,
                    );
                assert(earlier[k] == requests[k]);
            } else {
                assert(size.width == rounded_up(requests[requests.len() - 1].width as nat));
            }
        }
        if size.height != current.height {
            if size.height == before.height {
                let k = choose|k: int|
                    0 <= k < earlier.len() && before.height == rounded_up(
                        (#[trigger] earlier[k]).height as nat,
                    );
                assert(earlier[k] == requests[k]);
            } else {
                assert(size.height == rounded_up(requests[requests.len() - 1].height as nat));
            }
        }
    }
}

} // verus!

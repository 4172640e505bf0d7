//! Finding out what the host does when font smoothing is requested.
//!
//! System preferences can silently change what a request for smoothing
//! delivers, so the answer is read off two renderings of one reference glyph,
//! one with smoothing requested and one without, both as four bytes per
//! pixel with the three colour channels first.

use vstd::prelude::*;
use crate::instance::SmoothingMode;

verus! {

/// Number of pixels that both renderings have.
pub open spec fn probe_pixels(smooth: Seq<u8>, gray: Seq<u8>) -> int {
    if smooth.len() <= gray.len() {
        smooth.len() as int / 4
    } else {
        gray.len() as int / 4
    }
}

/// Whether the colour channels of pixel `i` disagree with each other.
pub open spec fn channels_disagree(data: Seq<u8>, i: int) -> bool {
    data[4 * i] != data[4 * i + 1] || data[4 * i + 1] != data[4 * i + 2]
}

/// Whether pixel `i` differs between the two renderings in a colour channel.
pub open spec fn renderings_disagree(smooth: Seq<u8>, gray: Seq<u8>, i: int) -> bool {
    smooth[4 * i] != gray[4 * i] || smooth[4 * i + 1] != gray[4 * i + 1] || smooth[4 * i + 2]
        != gray[4 * i + 2]
}

/// Whether one of the first `n` pixels of the smoothed rendering has
/// disagreeing channels.
pub open spec fn any_subpixel(smooth: Seq<u8>, n: int) -> bool {
    exists|i: int| 0 <= i < n && #[trigger] channels_disagree(smooth, i)
}

/// Whether one of the first `n` pixels differs between the renderings.
pub open spec fn any_dilation(smooth: Seq<u8>, gray: Seq<u8>, n: int) -> bool {
    exists|i: int| 0 <= i < n && #[trigger] renderings_disagree(smooth, gray, i)
}

/// What the two renderings show. Channels that disagree within a pixel mean
/// true subpixel anti-aliasing. Failing that, any difference between the
/// renderings means that smoothing dilates grayscale glyphs. Failing that
/// too, smoothing does nothing.
pub open spec fn smoothing_mode(smooth: Seq<u8>, gray: Seq<u8>) -> SmoothingMode {
    let n = probe_pixels(smooth, gray);
    if any_subpixel(smooth, n) {
        SmoothingMode::SubpixelCapable
    } else if any_dilation(smooth, gray, n) {
        SmoothingMode::AlphaOnly
    } else {
        SmoothingMode::Off
    }
}

/// Classifies the host's smoothing from a rendering with smoothing requested
/// and one without.
pub fn determine_font_smoothing_mode(smooth: &[u8], gray: &[u8]) -> (mode: SmoothingMode)
    requires
        smooth.len() % 4 == 0,
        gray.len() % 4 == 0,
    ensures
        mode == smoothing_mode(smooth@, gray@),
{
    let pixels: usize = if smooth.len() <= gray.len() {
        smooth.len() / 4
    } else {
        gray.len() / 4
    };
    let mut mode = SmoothingMode::Off;
    let mut i: usize = 0;
    while i < pixels
        invariant
            i <= pixels,
            pixels == probe_pixels(smooth@, gray@),
            4 * pixels <= smooth.len(),
            4 * pixels <= gray.len(),
            !any_subpixel(smooth@, i as int),
            mode == SmoothingMode::AlphaOnly || mode == SmoothingMode::Off,
            (mode == SmoothingMode::AlphaOnly) == any_dilation(smooth@, gray@, i as int),
        decreases pixels - i,
    {
        let at: usize = 4 * i;
        if smooth[at] != smooth[at + 1] || smooth[at + 1] != smooth[at + 2] {
            assert(channels_disagree(smooth@, i as int));
            return SmoothingMode::SubpixelCapable;
        }
        if smooth[at] != gray[at] || smooth[at + 1] != gray[at + 1] || smooth[at + 2] != gray[at
            + 2] {
            assert(renderings_disagree(smooth@, gray@, i as int));
            mode = SmoothingMode::AlphaOnly;
        }
        i += 1;
    }
    mode
}

/// Two renderings that agree in every colour channel show no smoothing.
pub proof fn lemma_equal_renderings_without_subpixel(smooth: Seq<u8>, gray: Seq<u8>)
    requires
        !any_subpixel(smooth, probe_pixels(smooth, gray)),
        forall|j: int| 0 <= j < 4 * probe_pixels(smooth, gray) && j % 4 != 3 ==> smooth[j] == gray[j],
    ensures
        smoothing_mode(smooth, gray) == SmoothingMode::Off,
{
    let n = probe_pixels(smooth, gray);
    assert forall|i: int| 0 <= i < n implies !#[trigger] renderings_disagree(smooth, gray, i) by {
        assert(smooth[4 * i] == gray[4 * i]);
        assert(smooth[4 * i + 1] == gray[4 * i + 1]);
        assert(smooth[4 * i + 2] == gray[4 * i + 2]);
    }
}

} // verus!

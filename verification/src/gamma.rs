//! Gamma lookup tables and the pixel passes that use them.
//!
//! A native rasteriser blends ink with a fixed gamma response, while masks
//! are composited with linear arithmetic. Three passes over a buffer of
//! four-byte pixels (blue, green, red, alpha) mediate between the two: one
//! into linear space, and two that pre-blend a linear mask for a given text
//! colour, per channel or as one grayscale value.

use vstd::prelude::*;
use crate::color::{compute_luminance, luminance, ColorU, LUM_STEP};

verus! {

/// Number of pre-blend tables: one per quantisation step of a channel.
pub const TABLE_COUNT: usize = 8;

/// Number of entries of a table: one per value of a byte.
pub const TABLE_LEN: usize = 256;

/// Lookup tables for gamma correction.
///
/// There is one pre-blend table for each quantisation step of a colour
/// channel, chosen by the text colour's channel and indexed by coverage, and
/// one table that takes a device value to linear space.
#[derive(Debug)]
pub struct GammaLut {
    tables: Vec<Vec<u8>>,
    inverse_gamma: Vec<u8>,
}

/// The channel value that a pre-blend table is made for: the three bits of
/// the table's index, repeated until the byte is full. It lies in the
/// quantisation step that selects the table.
pub open spec fn table_channel(index: int) -> int {
    index * 32 + index * 4 + index / 2
}

/// Computes `table_channel(index)`.
pub fn table_luminance(index: usize) -> (channel: u8)
    requires
        index < TABLE_COUNT,
    ensures
        channel == table_channel(index as int),
        channel / 32 == index,
{
    (index * 32 + index * 4 + index / 2) as u8
}

/// A buffer with every colour channel looked up in `to_linear`; the fourth
/// byte of each pixel is left alone.
pub open spec fn linearized(pixels: Seq<u8>, to_linear: Seq<u8>) -> Seq<u8> {
    Seq::new(
        pixels.len(),
        |i: int|
            if i % 4 == 3 {
                pixels[i]
            } else {
                to_linear[pixels[i] as int]
            },
    )
}

/// A buffer with each colour channel looked up in the table of the matching
/// channel of the text colour; the alpha becomes the corrected green.
pub open spec fn preblended(
    pixels: Seq<u8>,
    table_r: Seq<u8>,
    table_g: Seq<u8>,
    table_b: Seq<u8>,
) -> Seq<u8> {
    Seq::new(
        pixels.len(),
        |i: int|
            if i % 4 == 0 {
                table_b[pixels[i] as int]
            } else if i % 4 == 1 {
                table_g[pixels[i] as int]
            } else if i % 4 == 2 {
                table_r[pixels[i] as int]
            } else {
                table_g[pixels[i - 2] as int]
            },
    )
}

/// The one value that all four bytes of the pixel holding byte `i` get in a
/// grayscale pre-blend: the pixel's brightness, looked up in `table_g`.
pub open spec fn gray_value(pixels: Seq<u8>, table_g: Seq<u8>, i: int) -> u8 {
    let p = i - i % 4;
    table_g[luminance(pixels[p + 2], pixels[p + 1], pixels[p]) as int]
}

/// A buffer with every pixel collapsed to its corrected brightness.
pub open spec fn preblended_grayscale(pixels: Seq<u8>, table_g: Seq<u8>) -> Seq<u8> {
    Seq::new(pixels.len(), |i: int| gray_value(pixels, table_g, i))
}

impl GammaLut {
    /// Whether the tables have their shape and lose nothing at full
    /// coverage: eight pre-blend tables and one linearisation table, of 256
    /// entries each; every pre-blend table takes 255 to 255, and black stays
    /// black on the way to linear space.
    pub closed spec fn wf(&self) -> bool {
        &&& self.tables@.len() == TABLE_COUNT
        &&& forall|t: int| 0 <= t < TABLE_COUNT ==> (#[trigger] self.tables@[t])@.len() == TABLE_LEN
        &&& forall|t: int| 0 <= t < TABLE_COUNT ==> (#[trigger] self.tables@[t])@[255] == 255
        &&& self.inverse_gamma@.len() == TABLE_LEN
        &&& self.inverse_gamma@[0] == 0
    }

    /// The pre-blend table with index `t`.
    pub closed spec fn table_at(&self, t: int) -> Seq<u8> {
        self.tables@[t]@
    }

    /// The pre-blend table for a channel of the text colour: the table of the
    /// channel's quantisation step.
    pub open spec fn table_for(&self, channel: u8) -> Seq<u8> {
        self.table_at(channel as int / 32)
    }

    /// The table from device values to linear values.
    pub closed spec fn to_linear(&self) -> Seq<u8> {
        self.inverse_gamma@
    }

    /// Whether the lookup loses nothing at full coverage: black stays black
    /// on the way to linear space, and the pre-blend table for any colour
    /// takes 255 to 255.
    pub open spec fn keeps_full_coverage(&self) -> bool {
        &&& self.to_linear()[0] == 0
        &&& forall|c: u8| (#[trigger] self.table_for(c))[255] == 255
    }

    /// Whether tables of these contents make up a lookup: their number and
    /// lengths are right, every pre-blend table takes 255 to 255, and the
    /// linearisation table takes 0 to 0.
    pub open spec fn valid_tables(tables: Seq<Seq<u8>>, inverse_gamma: Seq<u8>) -> bool {
        &&& tables.len() == TABLE_COUNT
        &&& forall|t: int| 0 <= t < TABLE_COUNT ==> (#[trigger] tables[t]).len() == TABLE_LEN
        &&& forall|t: int| 0 <= t < TABLE_COUNT ==> (#[trigger] tables[t])[255] == 255
        &&& inverse_gamma.len() == TABLE_LEN
        &&& inverse_gamma[0] == 0
    }

    /// Builds a lookup from its tables, or returns `None` where their number
    /// or one of their lengths is wrong, or where they would lose coverage
    /// at a fully covered pixel.
    pub fn new(tables: Vec<Vec<u8>>, inverse_gamma: Vec<u8>) -> (r: Option<GammaLut>)
        ensures
            r is Some <==> GammaLut::valid_tables(tables.deep_view(), inverse_gamma@),
            r is Some ==> {
                &&& r->0.wf()
                &&& r->0.to_linear() == inverse_gamma@
                &&& forall|t: int| 0 <= t < TABLE_COUNT ==> #[trigger] r->0.table_at(t) == tables@[t]@
            },
    {
        proof {
            assert(tables.deep_view().len() == tables@.len());
            assert forall|t: int| 0 <= t < tables@.len() implies #[trigger] tables.deep_view()[t]
                == tables@[t]@ by {}
        }
        if tables.len() != TABLE_COUNT || inverse_gamma.len() != TABLE_LEN {
            return None;
        }
        if inverse_gamma[0] != 0 {
            return None;
        }
        let mut t: usize = 0;
        while t < TABLE_COUNT
            invariant
                t <= TABLE_COUNT,
                tables@.len() == TABLE_COUNT,
                forall|u: int| 0 <= u < t ==> (#[trigger] tables@[u])@.len() == TABLE_LEN,
                forall|u: int| 0 <= u < t ==> (#[trigger] tables@[u])@[255] == 255,
            decreases TABLE_COUNT - t,
        {
            if tables[t].len() != TABLE_LEN {
                assert(tables.deep_view()[t as int].len() != TABLE_LEN);
                return None;
            }
            if tables[t][255] != 255 {
                assert(tables.deep_view()[t as int][255] != 255);
                return None;
            }
            t += 1;
        }
        Some(GammaLut { tables, inverse_gamma })
    }

    /// A well-formed lookup has tables of full length and loses nothing at
    /// full coverage.
    pub proof fn lemma_wf(&self)
        requires
            self.wf(),
        ensures
            self.to_linear().len() == TABLE_LEN,
            forall|t: int| 0 <= t < TABLE_COUNT ==> (#[trigger] self.table_at(t)).len() == TABLE_LEN,
            forall|c: u8| (#[trigger] self.table_for(c)).len() == TABLE_LEN,
            self.keeps_full_coverage(),
    {
        assert forall|c: u8|
            (#[trigger] self.table_for(c)).len() == TABLE_LEN && self.table_for(c)[255]
                == 255 by {
            assert(0 <= c as int / 32 < 8);
            assert(self.table_at(c as int / 32).len() == TABLE_LEN);
            assert(self.tables@[c as int / 32]@[255] == 255);
        }
    }

    fn get_table(&self, channel: u8) -> (table: &Vec<u8>)
        requires
            self.wf(),
        ensures
            table@ == self.table_for(channel),
            table@.len() == TABLE_LEN,
    {
        let index: usize = (channel / LUM_STEP) as usize;
        &self.tables[index]
    }

    /// Takes the colour channels of every pixel from device space to linear
    /// space. The alpha bytes are not touched.
    pub fn convert_to_linear(&self, pixels: &mut Vec<u8>)
        requires
            self.wf(),
            old(pixels)@.len() % 4 == 0,
        ensures
            final(pixels)@ == linearized(old(pixels)@, self.to_linear()),
    {
        let ghost before = pixels@;
        let count: usize = pixels.len() / 4;
        let mut k: usize = 0;
        while k < count
            invariant
                self.wf(),
                k <= count,
                pixels@.len() == before.len(),
                pixels.len() == 4 * count,
                before.len() == 4 * count,
                forall|i: int| 0 <= i < 4 * k ==> pixels@[i] == #[trigger] linearized(
                    before,
                    self.to_linear(),
                )[i],
                forall|i: int| 4 * k <= i < before.len() ==> #[trigger] pixels@[i] == before[i],
            decreases count - k,
        {
            let at: usize = 4 * k;
            let b = self.inverse_gamma[pixels[at] as usize];
            let g = self.inverse_gamma[pixels[at + 1] as usize];
            let r = self.inverse_gamma[pixels[at + 2] as usize];
            pixels[at] = b;
            pixels[at + 1] = g;
            pixels[at + 2] = r;
            k += 1;
        }
        assert(pixels@ =~= linearized(before, self.to_linear()));
    }

    /// Pre-blends a linear subpixel mask for text of the given colour: each
    /// colour channel is corrected with the table for the matching channel of
    /// `color`, and the alpha is set to the corrected green.
    pub fn preblend(&self, pixels: &mut Vec<u8>, color: ColorU)
        requires
            self.wf(),
            old(pixels)@.len() % 4 == 0,
        ensures
            final(pixels)@ == preblended(
                old(pixels)@,
                self.table_for(color.r),
                self.table_for(color.g),
                self.table_for(color.b),
            ),
    {
        let ghost before = pixels@;
        let table_r = self.get_table(color.r);
        let table_g = self.get_table(color.g);
        let table_b = self.get_table(color.b);
        let ghost after = preblended(before, table_r@, table_g@, table_b@);
        let count: usize = pixels.len() / 4;
        let mut k: usize = 0;
        while k < count
            invariant
                k <= count,
                pixels@.len() == before.len(),
                pixels.len() == 4 * count,
                before.len() == 4 * count,
                table_r@.len() == TABLE_LEN,
                table_g@.len() == TABLE_LEN,
                table_b@.len() == TABLE_LEN,
                after == preblended(before, table_r@, table_g@, table_b@),
                forall|i: int| 0 <= i < 4 * k ==> pixels@[i] == #[trigger] after[i],
                forall|i: int| 4 * k <= i < before.len() ==> #[trigger] pixels@[i] == before[i],
            decreases count - k,
        {
            let at: usize = 4 * k;
            let b = table_b[pixels[at] as usize];
            let g = table_g[pixels[at + 1] as usize];
            let r = table_r[pixels[at + 2] as usize];
            pixels[at] = b;
            pixels[at + 1] = g;
            pixels[at + 2] = r;
            pixels[at + 3] = g;
            k += 1;
        }
        assert(pixels@ =~= after);
    }

    /// Pre-blends a linear mask for grayscale text of the given colour: every
    /// pixel is collapsed to its brightness, corrected with the table for the
    /// colour's green channel, in all four bytes.
    pub fn preblend_grayscale(&self, pixels: &mut Vec<u8>, color: ColorU)
        requires
            self.wf(),
            old(pixels)@.len() % 4 == 0,
        ensures
            final(pixels)@ == preblended_grayscale(old(pixels)@, self.table_for(color.g)),
    {
        let ghost before = pixels@;
        let table_g = self.get_table(color.g);
        let ghost after = preblended_grayscale(before, table_g@);
        let count: usize = pixels.len() / 4;
        let mut k: usize = 0;
        while k < count
            invariant
                k <= count,
                pixels@.len() == before.len(),
                pixels.len() == 4 * count,
                before.len() == 4 * count,
                table_g@.len() == TABLE_LEN,
                after == preblended_grayscale(before, table_g@),
                forall|i: int| 0 <= i < 4 * k ==> pixels@[i] == #[trigger] after[i],
                forall|i: int| 4 * k <= i < before.len() ==> #[trigger] pixels@[i] == before[i],
            decreases count - k,
        {
            let at: usize = 4 * k;
            let lum = compute_luminance(pixels[at + 2], pixels[at + 1], pixels[at]);
            let alpha = table_g[lum as usize];
            proof {
                assert forall|i: int| 4 * k <= i < 4 * k + 4 implies #[trigger] after[i] == alpha by {
                    assert(i - i % 4 == 4 * k);
                }
            }
            pixels[at] = alpha;
            pixels[at + 1] = alpha;
            pixels[at + 2] = alpha;
            pixels[at + 3] = alpha;
            k += 1;
        }
        assert(pixels@ =~= after);
    }
}

} // verus!

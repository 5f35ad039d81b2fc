//! Glyph metrics: per-character advance widths resolved from font data.
//!
//! A [`GlyphTable`] holds the advance width of every character a font
//! variant can map, in raw font units, together with the font's vertical
//! scale.  Text is measured by summing raw advances and scaling the sum
//! by the current font size; a character the table cannot map falls back
//! to a fixed width instead of failing the render.

use crate::font::{FontVariant, MAX_SIZE_MPT};
use vstd::prelude::*;

verus! {

/// The advance width, in raw font units, assumed for a character the
/// glyph table cannot map.
pub const FALLBACK_ADVANCE: u32 = 1000;

/// Upper bound on a single glyph's advance width, in raw font units.
pub const MAX_ADVANCE: u32 = 65535;

/// Upper bound on the length of one measured text run, in characters.
pub const MAX_TEXT_LEN: usize = 16777216;

/// Upper bound on any measured width, in millipoints.
pub const MAX_WIDTH_MPT: u64 = 1152921504606846976;

/// The advance width of the character with code `code`: the advance of
/// its first entry in the table, or the fallback width if the table
/// does not map it.
pub open spec fn advance_of(entries: Seq<(u32, u32)>, code: u32) -> u32
    decreases entries.len(),
{
    if entries.len() == 0 {
        FALLBACK_ADVANCE
    } else if entries[0].0 == code {
        entries[0].1
    } else {
        advance_of(entries.drop_first(), code)
    }
}

/// The width of `s` in raw font units: the sum of its characters'
/// advance widths.
pub open spec fn raw_width(entries: Seq<(u32, u32)>, s: Seq<char>) -> int
    decreases s.len(),
{
    if s.len() == 0 {
        0
    } else {
        raw_width(entries, s.drop_last()) + advance_of(entries, s.last() as u32)
    }
}

/// The width of `s` in millipoints at font size `size`: the raw width
/// scaled by the size and divided by the font's vertical scale.
pub open spec fn measured_width(entries: Seq<(u32, u32)>, vert_scale: u32, size: u64, s: Seq<
    char,
>) -> int {
    raw_width(entries, s) * size / (vert_scale as int)
}

/// Advance widths for one font variant, in raw font units, with the
/// font's vertical scale.
pub struct GlyphTable {
    /// Pairs of a character code and its advance width.  The first
    /// entry for a code wins; codes without an entry take the fallback
    /// width.
    pub entries: Vec<(u32, u32)>,
    /// The font's vertical scale in the same raw units, at least one.
    pub vert_scale: u32,
}

impl GlyphTable {
    /// Every advance bounded and the vertical scale positive.
    pub open spec fn wf(&self) -> bool {
        &&& forall|i: int| 0 <= i < self.entries@.len() ==> (#[trigger] self.entries@[i]).1
            <= MAX_ADVANCE
        &&& self.vert_scale >= 1
    }

    /// A table with no entries: every character takes the fallback
    /// width at the given vertical scale.
    pub fn new(vert_scale: u32) -> (t: GlyphTable)
        requires
            vert_scale >= 1,
        ensures
            t.wf(),
            t.entries@.len() == 0,
            t.vert_scale == vert_scale,
    {
        GlyphTable { entries: Vec::new(), vert_scale }
    }

    /// Adds the advance width for one character code.
    pub fn insert(&mut self, code: u32, advance: u32)
        requires
            old(self).wf(),
            advance <= MAX_ADVANCE,
        ensures
            final(self).wf(),
            final(self).entries@ == old(self).entries@.push((code, advance)),
            final(self).vert_scale == old(self).vert_scale,
    {
        self.entries.push((code, advance));
    }

    /// Looks up the advance width of `c`, falling back to the fixed
    /// width for characters the table does not map.
    pub fn advance(&self, c: char) -> (a: u32)
        requires
            self.wf(),
        ensures
            a == advance_of(self.entries@, c as u32),
            a <= MAX_ADVANCE,
    {
        let code = c as u32;
        let n = self.entries.len();
        let mut i: usize = 0;
        proof {
            assert(self.entries@.skip(0) =~= self.entries@);
        }
        while i < n
            invariant
                self.wf(),
                code == c as u32,
                n == self.entries@.len(),
                i <= n,
                advance_of(self.entries@, code) == advance_of(
                    self.entries@.skip(i as int),
                    code,
                ),
            decreases n - i,
        {
            let e = self.entries[i];
            proof {
                assert(self.entries@.skip(i as int)[0] == self.entries@[i as int]);
                assert(self.entries@.skip(i as int).drop_first() =~= self.entries@.skip(
                    i as int + 1,
                ));
            }
            if e.0 == code {
                proof {
                    assert(self.entries@.skip(i as int).len() > 0);
                    assert(advance_of(self.entries@.skip(i as int), code) == e.1);
                }
                return e.1;
            }
            i += 1;
        }
        proof {
            assert(self.entries@.skip(n as int).len() == 0);
        }
        FALLBACK_ADVANCE
    }

    /// Measures `text` at font size `size`, in millipoints.
    pub fn measure(&self, text: &Vec<char>, size: u64) -> (w: u64)
        requires
            self.wf(),
            size <= MAX_SIZE_MPT,
            text@.len() <= MAX_TEXT_LEN,
        ensures
            w as int == measured_width(self.entries@, self.vert_scale, size, text@),
            w <= MAX_WIDTH_MPT,
    {
        let n = text.len();
        let mut sum: u64 = 0;
        let mut i: usize = 0;
        while i < n
            invariant
                self.wf(),
                size <= MAX_SIZE_MPT,
                n == text@.len(),
                n <= MAX_TEXT_LEN,
                i <= n,
                sum as int == raw_width(self.entries@, text@.take(i as int)),
                sum <= i * (MAX_ADVANCE as int),
            decreases n - i,
        {
            let a = self.advance(text[i]);
            proof {
                let t = text@.take(i as int + 1);
                assert(t.drop_last() =~= text@.take(i as int));
                assert(t.last() == text@[i as int]);
            }
            sum = sum + a as u64;
            i += 1;
        }
        proof {
            assert(text@.take(n as int) =~= text@);
            assert(sum * size <= (MAX_TEXT_LEN * (MAX_ADVANCE as int)) * (MAX_SIZE_MPT as int))
                by (nonlinear_arith)
                requires
                    sum <= MAX_TEXT_LEN * (MAX_ADVANCE as int),
                    size <= MAX_SIZE_MPT,
            ;
            assert((MAX_TEXT_LEN * (MAX_ADVANCE as int)) * (MAX_SIZE_MPT as int)
                <= MAX_WIDTH_MPT);
        }
        let scaled = sum * size;
        let w = scaled / (self.vert_scale as u64);
        proof {
            assert(scaled / (self.vert_scale as u64) <= scaled) by (nonlinear_arith)
                requires
                    self.vert_scale >= 1,
            ;
        }
        w
    }
}

/// The four glyph tables a renderer must supply, one per font variant.
pub struct FontSet {
    pub regular: GlyphTable,
    pub bold: GlyphTable,
    pub italic: GlyphTable,
    pub bold_italic: GlyphTable,
}

impl FontSet {
    /// All four tables well-formed.
    pub open spec fn wf(&self) -> bool {
        &&& self.regular.wf()
        &&& self.bold.wf()
        &&& self.italic.wf()
        &&& self.bold_italic.wf()
    }

    /// The table serving the given variant.
    pub open spec fn spec_get(&self, v: FontVariant) -> GlyphTable {
        match v {
            FontVariant::Regular => self.regular,
            FontVariant::Bold => self.bold,
            FontVariant::Italic => self.italic,
            FontVariant::BoldItalic => self.bold_italic,
        }
    }

    /// Selects the glyph table of one font variant.
    pub fn get(&self, v: FontVariant) -> (t: &GlyphTable)
        ensures
            *t == self.spec_get(v),
    {
        match v {
            FontVariant::Regular => &self.regular,
            FontVariant::Bold => &self.bold,
            FontVariant::Italic => &self.italic,
            FontVariant::BoldItalic => &self.bold_italic,
        }
    }
}

} // verus!

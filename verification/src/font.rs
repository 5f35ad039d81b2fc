//! Typography state: active style flags, font variant resolution and the
//! current point size.
//!
//! Sizes are integer millipoints.  Exactly one of four font variants is
//! selected by the bold and italic flags; the strikethrough flag only
//! affects drawing, never font selection.

use vstd::prelude::*;

verus! {

/// Upper bound on any font size the engine works with, in millipoints.
pub const MAX_SIZE_MPT: u64 = 1048576;

/// Upper bound on the line height scale, in thousandths.
pub const MAX_SCALE_MILLI: u64 = 16000;

/// One of the four font variant resources a renderer must supply.
#[derive(Clone, Copy, Debug, PartialEq, Eq, Structural)]
pub enum FontVariant {
    Regular,
    Bold,
    Italic,
    BoldItalic,
}

/// The variant selected by a pair of style flags.
pub open spec fn variant_of(bold: bool, italic: bool) -> FontVariant {
    if bold && italic {
        FontVariant::BoldItalic
    } else if bold {
        FontVariant::Bold
    } else if italic {
        FontVariant::Italic
    } else {
        FontVariant::Regular
    }
}

/// Tracks the active style flags and sizes of the document being laid out.
///
/// The size fields other than `current_size` are configuration: they are
/// set once and never change while a document renders.
#[derive(Clone, Copy, Debug, PartialEq, Eq, Structural)]
pub struct Font {
    pub is_bold: bool,
    pub is_italic: bool,
    pub is_strikethrough: bool,
    /// The size the next text run is drawn at, in millipoints.
    pub current_size: u64,
    /// The body text size, in millipoints.
    pub regular_size: u64,
    /// The size of a level-1 heading, in millipoints.
    pub header_size: u64,
    /// How much smaller each deeper heading level is, in millipoints.
    pub header_size_scale_increment: u64,
    /// Line height as a multiple of the current size, in thousandths.
    pub line_height_scale_milli: u64,
}

/// The size a heading of the given level is drawn at: the base header
/// size shrunk by one increment per level below one.  A level so deep
/// that the decrement exceeds the base size yields size zero.
pub open spec fn spec_heading_size(header: u64, incr: u64, level: u8) -> int {
    if incr * (level - 1) <= header {
        header - incr * (level - 1)
    } else {
        0
    }
}

/// The typography state after `Start(Strong)`: bold set.
pub open spec fn start_strong(f: Font) -> Font {
    Font { is_bold: true, ..f }
}

/// The typography state after `End(Strong)`: bold cleared.
pub open spec fn end_strong(f: Font) -> Font {
    Font { is_bold: false, ..f }
}

/// The typography state after `Start(Emphasis)`: italic set.
pub open spec fn start_emphasis(f: Font) -> Font {
    Font { is_italic: true, ..f }
}

/// The typography state after `End(Emphasis)`: italic cleared.
pub open spec fn end_emphasis(f: Font) -> Font {
    Font { is_italic: false, ..f }
}

/// The typography state after `Start(Strikethrough)`: strike flag set.
pub open spec fn start_strikethrough(f: Font) -> Font {
    Font { is_strikethrough: true, ..f }
}

/// The typography state after `End(Strikethrough)`: strike flag cleared.
pub open spec fn end_strikethrough(f: Font) -> Font {
    Font { is_strikethrough: false, ..f }
}

/// The typography state after a formatting reset: all flags cleared and
/// the current size back at the body size.
pub open spec fn cleared(f: Font) -> Font {
    Font {
        is_bold: false,
        is_italic: false,
        is_strikethrough: false,
        current_size: f.regular_size,
        ..f
    }
}

/// The typography a document starts with: 10 pt body text, 18 pt
/// level-1 headings shrinking 4 pt per level, lines 1.6 times the
/// current size.
pub open spec fn default_font() -> Font {
    Font {
        is_bold: false,
        is_italic: false,
        is_strikethrough: false,
        current_size: 8000u64,
        regular_size: 10000u64,
        header_size: 18000u64,
        header_size_scale_increment: 4000u64,
        line_height_scale_milli: 1600u64,
    }
}

impl Font {
    /// All sizes within the engine's working bounds.
    pub open spec fn wf(&self) -> bool {
        &&& self.current_size <= MAX_SIZE_MPT
        &&& self.regular_size <= MAX_SIZE_MPT
        &&& self.header_size <= MAX_SIZE_MPT
        &&& self.header_size_scale_increment <= MAX_SIZE_MPT
        &&& self.line_height_scale_milli <= MAX_SCALE_MILLI
    }

    /// The default typography: 10 pt body text, 18 pt level-1 headings
    /// shrinking 4 pt per level, lines 1.6 times the current size.
    pub fn new() -> (f: Font)
        ensures
            f == default_font(),
            f.wf(),
    {
        Font {
            is_bold: false,
            is_italic: false,
            is_strikethrough: false,
            current_size: 8000,
            regular_size: 10000,
            header_size: 18000,
            header_size_scale_increment: 4000,
            line_height_scale_milli: 1600,
        }
    }

    /// The variant the current flags select.
    pub open spec fn spec_variant(&self) -> FontVariant {
        variant_of(self.is_bold, self.is_italic)
    }

    /// Resolves the active font variant from the bold and italic flags.
    pub fn get(&self) -> (v: FontVariant)
        ensures
            v == self.spec_variant(),
    {
        match (self.is_bold, self.is_italic) {
            (true, true) => FontVariant::BoldItalic,
            (true, false) => FontVariant::Bold,
            (false, true) => FontVariant::Italic,
            (false, false) => FontVariant::Regular,
        }
    }

    /// The line height for the current size, in millipoints.
    pub open spec fn spec_line_height(&self) -> int {
        self.current_size * self.line_height_scale_milli / 1000
    }

    /// Computes the current line height: the current size times the
    /// line height scale.
    pub fn line_height(&self) -> (lh: u64)
        requires
            self.wf(),
        ensures
            lh as int == self.spec_line_height(),
            lh <= MAX_SIZE_MPT * MAX_SCALE_MILLI / 1000,
    {
        proof {
            assert(self.current_size * self.line_height_scale_milli <= MAX_SIZE_MPT
                * MAX_SCALE_MILLI) by (nonlinear_arith)
                requires
                    self.current_size <= MAX_SIZE_MPT,
                    self.line_height_scale_milli <= MAX_SCALE_MILLI,
            ;
            assert(self.current_size * self.line_height_scale_milli / 1000 <= MAX_SIZE_MPT
                * MAX_SCALE_MILLI / 1000) by (nonlinear_arith)
                requires
                    self.current_size * self.line_height_scale_milli <= MAX_SIZE_MPT
                        * MAX_SCALE_MILLI,
            ;
        }
        self.current_size * self.line_height_scale_milli / 1000
    }

    /// Computes the size a heading of `level` is drawn at.
    pub fn heading_size(&self, level: u8) -> (r: u64)
        requires
            1 <= level <= 6,
            self.wf(),
        ensures
            r as int == spec_heading_size(self.header_size, self.header_size_scale_increment, level),
            r <= MAX_SIZE_MPT,
    {
        let steps = (level - 1) as u64;
        proof {
            assert(self.header_size_scale_increment * steps <= MAX_SIZE_MPT * 5)
                by (nonlinear_arith)
                requires
                    self.header_size_scale_increment <= MAX_SIZE_MPT,
                    steps <= 5,
            ;
        }
        let dec = self.header_size_scale_increment * steps;
        if dec <= self.header_size {
            self.header_size - dec
        } else {
            0
        }
    }

    /// Resets the style flags and puts the current size back at the
    /// body size.
    pub fn clear_typography(&mut self)
        ensures
            *final(self) == cleared(*old(self)),
    {
        self.is_bold = false;
        self.is_italic = false;
        self.is_strikethrough = false;
        self.current_size = self.regular_size;
    }
}

/// Law: heading sizes shrink strictly as the level deepens.  As long as
/// the size one level up is still positive and the increment is not
/// zero, level `level` is drawn strictly smaller than level `level - 1`.
pub proof fn lemma_heading_sizes_decrease(header: u64, incr: u64, level: u8)
    requires
        2 <= level <= 6,
        incr >= 1,
        header > incr * (level - 2),
    ensures
        spec_heading_size(header, incr, level) < spec_heading_size(
            header,
            incr,
            (level - 1) as u8,
        ),
{
    assert(incr * (level - 1) == incr * (level - 2) + incr) by (nonlinear_arith);
}

/// Law: a `Start(Strong)`/`End(Strong)` pair around a state whose bold
/// flag is clear restores the typography state exactly.
pub proof fn lemma_strong_round_trip(f: Font)
    requires
        !f.is_bold,
    ensures
        end_strong(start_strong(f)) == f,
{
}

/// Law: an `Start(Emphasis)`/`End(Emphasis)` pair around a state whose
/// italic flag is clear restores the typography state exactly.
pub proof fn lemma_emphasis_round_trip(f: Font)
    requires
        !f.is_italic,
    ensures
        end_emphasis(start_emphasis(f)) == f,
{
}

/// Law: a `Start(Strikethrough)`/`End(Strikethrough)` pair around a
/// state whose strike flag is clear restores the typography state
/// exactly.
pub proof fn lemma_strikethrough_round_trip(f: Font)
    requires
        !f.is_strikethrough,
    ensures
        end_strikethrough(start_strikethrough(f)) == f,
{
}

} // verus!

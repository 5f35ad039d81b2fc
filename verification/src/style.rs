//! Page styling: dimensions, margins and heading decoration.
//!
//! All lengths are integer millipoints.  The content box is the page
//! rectangle shrunk by the horizontal padding on both sides and by the
//! vertical padding at the top; the single logical page has no bottom
//! limit (overflow past the bottom is not detected).

use vstd::prelude::*;

verus! {

/// How headings are underlined.
#[derive(Clone, Copy, Debug, PartialEq, Eq, Structural)]
pub enum HeaderUnderline {
    /// Underline spans the full content width.
    FullPage,
    /// No underline is drawn.
    Disabled,
}

/// Page dimensions and margins, in millipoints, plus the heading
/// underline choice.  Colors belong to the canvas writer, not to
/// layout.
pub struct Style {
    pub width: u64,
    pub height: u64,
    pub vertical_padding: u64,
    pub horizontal_padding: u64,
    pub underline_headings: HeaderUnderline,
}

impl Style {
    /// Margins leave a non-empty content box.
    pub open spec fn wf(&self) -> bool {
        &&& 2 * self.horizontal_padding <= self.width
        &&& self.vertical_padding <= self.height
    }

    /// The left edge of the content box.
    pub open spec fn spec_left(&self) -> u64 {
        self.horizontal_padding
    }

    /// The right edge of the content box.
    pub open spec fn spec_right(&self) -> int {
        self.width - self.horizontal_padding
    }

    /// The full width of the content box.
    pub open spec fn spec_content_width(&self) -> int {
        self.width - 2 * self.horizontal_padding
    }

    /// An A4-like default: a 209.9 mm by 297 mm page with 14 mm
    /// margins (rounded to whole millipoints) and full-width heading
    /// underlines.
    pub fn new() -> (s: Style)
        ensures
            s == (Style {
                width: 594992u64,
                height: 841890u64,
                vertical_padding: 39685u64,
                horizontal_padding: 39685u64,
                underline_headings: HeaderUnderline::FullPage,
            }),
            s.wf(),
    {
        Style {
            width: 594992,
            height: 841890,
            vertical_padding: 39685,
            horizontal_padding: 39685,
            underline_headings: HeaderUnderline::FullPage,
        }
    }
}

} // verus!

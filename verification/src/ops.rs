//! Drawing instructions: the engine's output.
//!
//! Every instruction is absolutely positioned in millipoints from the
//! top-left corner of the page, `y` growing downward.  A canvas writer
//! replays the sequence in order onto its vector document.

use crate::font::FontVariant;
use vstd::prelude::*;

verus! {

/// What a horizontal line stands for; the canvas writer picks stroke
/// color accordingly.
#[derive(Clone, Copy, Debug, PartialEq, Eq, Structural)]
pub enum LineKind {
    /// A full-width divider between blocks.
    Rule,
    /// The underline below a heading.
    HeadingUnderline,
    /// The strike through a run of struck-out text.
    Strikethrough,
}

/// One drawing instruction.
#[derive(Debug, PartialEq)]
pub enum DrawOp {
    /// Draw `text` with its baseline starting at `(x, y)`, in the
    /// given font variant and size; `width` is the run's measured
    /// width.
    Text { x: u64, y: u64, text: String, variant: FontVariant, size: u64, width: u64 },
    /// Draw a horizontal line from `x_start` to `x_end` at height `y`.
    Line { x_start: u64, x_end: u64, y: u64, kind: LineKind },
    /// Advance the canvas writer's own text cursor to the next line.
    Break,
    /// A clickable region covering the rectangle between the two
    /// corners, pointing at `dest`.
    Link { x_start: u64, y_start: u64, x_end: u64, y_end: u64, dest: String },
}

/// The mathematical shape of a drawing instruction, with text as a
/// character sequence.
pub ghost enum OpModel {
    Text { x: u64, y: u64, text: Seq<char>, variant: FontVariant, size: u64, width: int },
    Line { x_start: u64, x_end: u64, y: u64, kind: LineKind },
    Break,
    Link { x_start: u64, y_start: u64, x_end: u64, y_end: u64, dest: Seq<char> },
}

impl View for DrawOp {
    type V = OpModel;

    open spec fn view(&self) -> OpModel {
        match self {
            DrawOp::Text { x, y, text, variant, size, width } => OpModel::Text {
                x: *x,
                y: *y,
                text: text@,
                variant: *variant,
                size: *size,
                width: *width as int,
            },
            DrawOp::Line { x_start, x_end, y, kind } => OpModel::Line {
                x_start: *x_start,
                x_end: *x_end,
                y: *y,
                kind: *kind,
            },
            DrawOp::Break => OpModel::Break,
            DrawOp::Link { x_start, y_start, x_end, y_end, dest } => OpModel::Link {
                x_start: *x_start,
                y_start: *y_start,
                x_end: *x_end,
                y_end: *y_end,
                dest: dest@,
            },
        }
    }
}

/// The models of a sequence of drawing instructions.
pub open spec fn op_views(s: Seq<DrawOp>) -> Seq<OpModel> {
    s.map_values(|op: DrawOp| op@)
}

} // verus!

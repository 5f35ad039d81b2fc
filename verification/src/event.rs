//! The semantic markup events the engine consumes.
//!
//! An external tokenizer turns source text into a linear stream of
//! these events.  Every `Start` of a span-like block is expected to be
//! matched by exactly one `End` of the same kind before the stream
//! ends; event kinds the engine does not support are fatal when
//! encountered.

use crate::metrics::MAX_TEXT_LEN;
use vstd::prelude::*;

verus! {

/// The semantic kind carried by a `Start`/`End` event pair.
#[derive(Debug)]
pub enum Block {
    Paragraph,
    /// A heading with its level, one through six.
    Heading(u8),
    /// A list; `None` is bulleted, `Some(n)` is ordered starting at `n`.
    List(Option<u64>),
    /// One list item.
    Item,
    Emphasis,
    Strong,
    Strikethrough,
    /// A link with its destination.
    Link(String),
    Table,
    TableHead,
    TableRow,
    TableCell,
}

impl Block {
    /// Heading levels stay within one through six.
    pub open spec fn wf(&self) -> bool {
        match self {
            Block::Heading(level) => 1 <= *level <= 6,
            _ => true,
        }
    }
}

/// One token of the markup stream.
#[derive(Debug)]
pub enum MdEvent {
    Start(Block),
    End(Block),
    /// A run of text to be measured, wrapped and drawn.
    Text(String),
    SoftBreak,
    HardBreak,
    /// A horizontal rule.
    Rule,
    /// Any event kind the engine does not support; fatal when reached.
    Unsupported,
}

impl MdEvent {
    /// Blocks well-formed and text runs within the measurable length.
    pub open spec fn wf(&self) -> bool {
        match self {
            MdEvent::Start(b) => b.wf(),
            MdEvent::End(b) => b.wf(),
            MdEvent::Text(s) => s@.len() <= MAX_TEXT_LEN,
            _ => true,
        }
    }
}

} // verus!

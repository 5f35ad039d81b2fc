//! A document layout engine for markdown-like event streams.
//!
//! The engine consumes a linear stream of semantic markup events
//! (paragraphs, headings, lists, emphasis, links, rules) and produces
//! absolute-positioned drawing instructions: text runs, horizontal lines
//! and link regions on a single page.  It performs its own glyph-metrics
//! based text measurement and greedy line wrapping.
//!
//! All geometry is carried in integer millipoints (1/1000 of a
//! typographic point), measured from the top-left corner of the page,
//! with `y` growing downward.  Callers resolve glyph advance widths from
//! their font files into glyph tables and replay the emitted drawing
//! instructions onto whatever vector canvas they use.

pub mod cli;
pub mod config;
pub mod digits;
pub mod engine;
pub mod event;
pub mod font;
pub mod list;
pub mod metrics;
pub mod ops;
pub mod strutil;
pub mod style;
pub mod table;
pub mod wrap;

//! The document orchestrator: an event-driven state machine that pulls
//! markup events one at a time, tracks typography, cursor, list and
//! table state, and emits drawing instructions.
//!
//! The whole run is specified by a step interpreter over a ghost state:
//! [`step_at`] gives the state change, the emitted instructions and the
//! number of events one dispatch consumes, and [`run_from`] folds it
//! over the stream.  The executable renderer is proved to produce
//! exactly that.

use crate::digits::lemma_dec_chars_len_u64;
use crate::event::{Block, MdEvent};
use crate::font::{
    cleared, default_font, end_emphasis, end_strikethrough, end_strong, spec_heading_size,
    start_emphasis, start_strikethrough, start_strong, Font,
};
use crate::list::{frame_after, marker_chars, next_frame, spec_marker, ListStack};
use crate::metrics::{measured_width, FontSet, MAX_TEXT_LEN};
use crate::ops::{op_views, DrawOp, LineKind, OpModel};
use crate::strutil::{chars_to_string, string_chars};
use crate::style::{HeaderUnderline, Style};
use crate::table::{Table, TablePosition};
use crate::wrap::{line_views, text_lines, wrap_text};
use vstd::prelude::*;

verus! {

/// Why a render aborted.
#[derive(Clone, Copy, Debug, PartialEq, Eq, Structural)]
pub enum RenderError {
    /// The stream held an event kind the engine does not support.
    Unsupported,
    /// An `End(List)` closed no list, or an item appeared outside any
    /// list.
    StructuralMismatch,
}

/// The engine's abstract state between events.
pub ghost struct GState {
    /// Style flags and sizes.
    pub font: Font,
    /// Pen position, millipoints from the page's top-left corner.
    pub x: u64,
    pub y: u64,
    /// Cursor snapshot taken at the latest `Start(Link)`.
    pub snap_x: u64,
    pub snap_y: u64,
    /// Open list frames, innermost last.
    pub lists: Seq<Option<u64>>,
    /// Which table section the stream is in.
    pub tpos: TablePosition,
}

/// `a + b` clamped into the unsigned range.
pub open spec fn sat_add_u64(a: u64, b: int) -> u64 {
    if a + b > u64::MAX {
        u64::MAX
    } else if a + b < 0 {
        0
    } else {
        (a + b) as u64
    }
}

/// `a - b` clamped into the unsigned range.
pub open spec fn sat_sub_u64(a: u64, b: int) -> u64 {
    if a - b < 0 {
        0
    } else if a - b > u64::MAX {
        u64::MAX
    } else {
        (a - b) as u64
    }
}

/// The size a heading of `level` sets, as a machine integer.
pub open spec fn heading_size_u64(f: Font, level: u8) -> u64 {
    spec_heading_size(f.header_size, f.header_size_scale_increment, level) as u64
}

/// The right edge of the content box as a machine integer.
pub open spec fn right_u64(style: Style) -> u64 {
    (style.width - style.horizontal_padding) as u64
}

/// The state after a full line break: pen back at the left edge, one
/// line height (of the size active before the break) further down, and
/// all formatting reset.
pub open spec fn line_break_state(st: GState, style: Style) -> GState {
    GState {
        font: cleared(st.font),
        x: style.spec_left(),
        y: sat_add_u64(st.y, st.font.spec_line_height()),
        ..st
    }
}

/// The state after a formatting-preserving line break, as used between
/// wrapped lines and for soft and hard breaks.
pub open spec fn preserve_break_state(st: GState, style: Style) -> GState {
    GState { x: style.spec_left(), y: sat_add_u64(st.y, st.font.spec_line_height()), ..st }
}

/// The height a strike line is drawn at: a fifth of the line height
/// above the baseline.
pub open spec fn strike_y(st: GState) -> u64 {
    sat_sub_u64(st.y, st.font.spec_line_height() / 5)
}

/// The height a heading underline is drawn at: a quarter of the line
/// height below the baseline.
pub open spec fn underline_y(st: GState) -> u64 {
    sat_add_u64(st.y, st.font.spec_line_height() / 4)
}

/// A full line break with its emitted instruction.
pub open spec fn break_full(st: GState, style: Style) -> (GState, Seq<OpModel>) {
    (line_break_state(st, style), seq![OpModel::Break])
}

/// A formatting-preserving line break with its emitted instruction.
pub open spec fn break_preserve(st: GState, style: Style) -> (GState, Seq<OpModel>) {
    (preserve_break_state(st, style), seq![OpModel::Break])
}

/// A horizontal rule: a full-width divider line, then one full break.
pub open spec fn rule_step(st: GState, style: Style) -> (GState, Seq<OpModel>) {
    let line = OpModel::Line {
        x_start: style.spec_left(),
        x_end: right_u64(style),
        y: strike_y(st),
        kind: LineKind::Rule,
    };
    let (st2, bops) = break_full(st, style);
    (st2, seq![line] + bops)
}

/// The instructions that draw the lines of one text run: each line at
/// the current pen position, struck through if the strike flag is
/// active, with a formatting-preserving break after every line but the
/// last; the pen advances by the last line's width.
pub open spec fn lines_emit(st: GState, lines: Seq<(Seq<char>, int)>, style: Style) -> (
    GState,
    Seq<OpModel>,
)
    decreases lines.len(),
{
    if lines.len() == 0 {
        (st, Seq::<OpModel>::empty())
    } else {
        let txt = lines[0].0;
        let w = lines[0].1;
        let text_op = OpModel::Text {
            x: st.x,
            y: st.y,
            text: txt,
            variant: st.font.spec_variant(),
            size: st.font.current_size,
            width: w,
        };
        let head_ops = if st.font.is_strikethrough {
            seq![
                text_op,
                OpModel::Line {
                    x_start: st.x,
                    x_end: sat_add_u64(st.x, w),
                    y: strike_y(st),
                    kind: LineKind::Strikethrough,
                },
            ]
        } else {
            seq![text_op]
        };
        if lines.len() == 1 {
            (GState { x: sat_add_u64(st.x, w), ..st }, head_ops)
        } else {
            let st2 = preserve_break_state(st, style);
            let (st3, rest) = lines_emit(st2, lines.drop_first(), style);
            (st3, head_ops + seq![OpModel::Break] + rest)
        }
    }
}

/// Handling one text run: measure it against the room left on the
/// current line, lay it out as one line or as wrapped lines, and draw
/// them.
pub open spec fn text_step(st: GState, s: Seq<char>, style: Style, fonts: FontSet) -> (
    GState,
    Seq<OpModel>,
) {
    let tbl = fonts.spec_get(st.font.spec_variant());
    let remaining = sat_sub_u64(right_u64(style), st.x as int) as int;
    let lines = text_lines(
        tbl.entries@,
        tbl.vert_scale,
        st.font.current_size,
        s,
        remaining,
        style.spec_content_width(),
    );
    lines_emit(st, lines, style)
}

/// The heading underline instructions, by configuration.
pub open spec fn underline_ops(st: GState, style: Style) -> Seq<OpModel> {
    match style.underline_headings {
        HeaderUnderline::FullPage => seq![
            OpModel::Line {
                x_start: style.spec_left(),
                x_end: right_u64(style),
                y: underline_y(st),
                kind: LineKind::HeadingUnderline,
            },
        ],
        HeaderUnderline::Disabled => Seq::<OpModel>::empty(),
    }
}

/// Dispatch of one `Start` event.  `next` is the lookahead token: a
/// heading renders an immediately following text run inline, so that
/// its underline is drawn after the heading text.  Returns the new
/// state, the emitted instructions and how many events were consumed.
pub open spec fn start_step(
    st: GState,
    b: Block,
    next: Option<MdEvent>,
    style: Style,
    fonts: FontSet,
) -> Result<(GState, Seq<OpModel>, int), RenderError> {
    match b {
        Block::Paragraph => Ok(
            (
                GState { font: Font { current_size: st.font.regular_size, ..st.font }, ..st },
                Seq::<OpModel>::empty(),
                1,
            ),
        ),
        Block::Heading(level) => {
            let f2 = Font { is_bold: true, current_size: heading_size_u64(st.font, level), ..st.font };
            let st1 = GState { font: f2, ..st };
            match next {
                Some(MdEvent::Text(s)) => {
                    let (st2, ops2) = text_step(st1, s@, style, fonts);
                    Ok((st2, ops2 + underline_ops(st2, style), 2))
                },
                _ => Ok((st1, underline_ops(st1, style), 1)),
            }
        },
        Block::List(n) => Ok((GState { lists: st.lists.push(n), ..st }, Seq::<OpModel>::empty(), 1)),
        Block::Item => {
            if st.lists.len() == 0 {
                Err(RenderError::StructuralMismatch)
            } else {
                let frame = st.lists.last();
                let marker = spec_marker(frame);
                let tbl = fonts.spec_get(st.font.spec_variant());
                let mw = measured_width(tbl.entries@, tbl.vert_scale, st.font.current_size, marker);
                let op = OpModel::Text {
                    x: st.x,
                    y: st.y,
                    text: marker,
                    variant: st.font.spec_variant(),
                    size: st.font.current_size,
                    width: mw,
                };
                Ok(
                    (
                        GState {
                            lists: st.lists.drop_last().push(next_frame(frame)),
                            x: sat_add_u64(st.x, mw),
                            ..st
                        },
                        seq![op],
                        1,
                    ),
                )
            }
        },
        Block::Emphasis => Ok(
            (GState { font: start_emphasis(st.font), ..st }, Seq::<OpModel>::empty(), 1),
        ),
        Block::Strong => Ok((GState { font: start_strong(st.font), ..st }, Seq::<OpModel>::empty(), 1)),
        Block::Strikethrough => Ok(
            (GState { font: start_strikethrough(st.font), ..st }, Seq::<OpModel>::empty(), 1),
        ),
        Block::Link(_) => Ok((GState { snap_x: st.x, snap_y: st.y, ..st }, Seq::<OpModel>::empty(), 1)),
        Block::Table => Ok((st, Seq::<OpModel>::empty(), 1)),
        Block::TableHead => Ok(
            (GState { tpos: TablePosition::Head, ..st }, Seq::<OpModel>::empty(), 1),
        ),
        Block::TableRow => Ok((GState { tpos: TablePosition::Row, ..st }, Seq::<OpModel>::empty(), 1)),
        Block::TableCell => Ok((st, Seq::<OpModel>::empty(), 1)),
    }
}

/// Dispatch of one `End` event.
pub open spec fn end_step(st: GState, b: Block, style: Style) -> (GState, Seq<OpModel>) {
    match b {
        Block::Paragraph => break_full(st, style),
        Block::Heading(_) => break_full(st, style),
        Block::List(_) => {
            let st1 = GState {
                lists: if st.lists.len() > 0 {
                    st.lists.drop_last()
                } else {
                    st.lists
                },
                ..st
            };
            break_full(st1, style)
        },
        Block::Item => break_full(st, style),
        Block::Emphasis => (GState { font: end_emphasis(st.font), ..st }, Seq::<OpModel>::empty()),
        Block::Strong => (GState { font: end_strong(st.font), ..st }, Seq::<OpModel>::empty()),
        Block::Strikethrough => (
            GState { font: end_strikethrough(st.font), ..st },
            Seq::<OpModel>::empty(),
        ),
        Block::Link(dest) => (
            st,
            seq![
                OpModel::Link {
                    x_start: st.snap_x,
                    y_start: st.snap_y,
                    x_end: st.x,
                    y_end: st.y,
                    dest: dest@,
                },
            ],
        ),
        Block::Table => (GState { tpos: TablePosition::Outside, ..st }, Seq::<OpModel>::empty()),
        Block::TableHead => (GState { tpos: TablePosition::Outside, ..st }, Seq::<OpModel>::empty()),
        Block::TableRow => (GState { tpos: TablePosition::Outside, ..st }, Seq::<OpModel>::empty()),
        Block::TableCell => (st, Seq::<OpModel>::empty()),
    }
}

/// Dispatch of the event at `i`, with one-token lookahead for
/// headings.
pub open spec fn step_at(
    st: GState,
    events: Seq<MdEvent>,
    i: int,
    style: Style,
    fonts: FontSet,
) -> Result<(GState, Seq<OpModel>, int), RenderError> {
    match events[i] {
        MdEvent::Start(b) => start_step(
            st,
            b,
            if i + 1 < events.len() {
                Some(events[i + 1])
            } else {
                None
            },
            style,
            fonts,
        ),
        MdEvent::End(b) => {
            let (st2, ops2) = end_step(st, b, style);
            Ok((st2, ops2, 1))
        },
        MdEvent::Text(s) => {
            let (st2, ops2) = text_step(st, s@, style, fonts);
            Ok((st2, ops2, 1))
        },
        MdEvent::SoftBreak => {
            let (st2, ops2) = break_preserve(st, style);
            Ok((st2, ops2, 1))
        },
        MdEvent::HardBreak => {
            let (st2, ops2) = break_preserve(st, style);
            Ok((st2, ops2, 1))
        },
        MdEvent::Rule => {
            let (st2, ops2) = rule_step(st, style);
            Ok((st2, ops2, 1))
        },
        MdEvent::Unsupported => Err(RenderError::Unsupported),
    }
}

/// Folds [`step_at`] over the stream from position `i` until the end
/// or the first error, concatenating the emitted instructions.
pub open spec fn run_from(
    st: GState,
    events: Seq<MdEvent>,
    i: int,
    style: Style,
    fonts: FontSet,
) -> Result<(GState, Seq<OpModel>), RenderError>
    decreases events.len() - i,
{
    if i >= events.len() {
        Ok((st, Seq::<OpModel>::empty()))
    } else {
        match step_at(st, events, i, style, fonts) {
            Err(e) => Err(e),
            Ok((st2, ops2, consumed)) => {
                let j = if i < i + consumed && i + consumed <= events.len() {
                    i + consumed
                } else {
                    i + 1
                };
                match run_from(st2, events, j, style, fonts) {
                    Err(e) => Err(e),
                    Ok((st3, ops3)) => Ok((st3, ops2 + ops3)),
                }
            },
        }
    }
}

/// The state a document starts in: pen at the top-left corner of the
/// content box, default typography, no open lists.
pub open spec fn init_state(style: Style) -> GState {
    GState {
        font: default_font(),
        x: style.spec_left(),
        y: style.vertical_padding,
        snap_x: 0,
        snap_y: 0,
        lists: Seq::<Option<u64>>::empty(),
        tpos: TablePosition::Outside,
    }
}

/// What rendering a whole stream produces: the drawing instructions,
/// or the first error.
pub open spec fn spec_render(events: Seq<MdEvent>, style: Style, fonts: FontSet) -> Result<
    Seq<OpModel>,
    RenderError,
> {
    match run_from(init_state(style), events, 0, style, fonts) {
        Ok((st, ops)) => Ok(ops),
        Err(e) => Err(e),
    }
}

proof fn lemma_sat_add_grows(a: u64, b: int)
    requires
        b >= 0,
    ensures
        sat_add_u64(a, b) >= a,
{
}

proof fn lemma_line_height_nonneg(f: Font)
    ensures
        f.spec_line_height() >= 0,
{
    assert(f.current_size * f.line_height_scale_milli >= 0) by (nonlinear_arith);
    assert(f.current_size * f.line_height_scale_milli / 1000 >= 0) by (nonlinear_arith)
        requires
            f.current_size * f.line_height_scale_milli >= 0,
    ;
}

proof fn lemma_lines_emit_descends(st: GState, lines: Seq<(Seq<char>, int)>, style: Style)
    ensures
        lines_emit(st, lines, style).0.y >= st.y,
    decreases lines.len(),
{
    if lines.len() > 1 {
        let st2 = preserve_break_state(st, style);
        lemma_line_height_nonneg(st.font);
        lemma_sat_add_grows(st.y, st.font.spec_line_height());
        lemma_lines_emit_descends(st2, lines.drop_first(), style);
    }
}

proof fn lemma_step_descends(st: GState, events: Seq<MdEvent>, i: int, style: Style, fonts: FontSet)
    ensures
        (step_at(st, events, i, style, fonts) matches Ok(p) ==> p.0.y >= st.y),
{
    lemma_line_height_nonneg(st.font);
    lemma_sat_add_grows(st.y, st.font.spec_line_height());
    match events[i] {
        MdEvent::Start(b) => match b {
            Block::Heading(_) => {
                if i + 1 < events.len() {
                    match events[i + 1] {
                        MdEvent::Text(s) => {
                            let f2 = Font {
                                is_bold: true,
                                current_size: heading_size_u64(st.font, b->Heading_0),
                                ..st.font
                            };
                            let st1 = GState { font: f2, ..st };
                            let tbl = fonts.spec_get(st1.font.spec_variant());
                            let remaining = sat_sub_u64(right_u64(style), st1.x as int) as int;
                            lemma_lines_emit_descends(
                                st1,
                                text_lines(
                                    tbl.entries@,
                                    tbl.vert_scale,
                                    st1.font.current_size,
                                    s@,
                                    remaining,
                                    style.spec_content_width(),
                                ),
                                style,
                            );
                        },
                        _ => {},
                    }
                }
            },
            _ => {},
        },
        MdEvent::Text(s) => {
            let tbl = fonts.spec_get(st.font.spec_variant());
            let remaining = sat_sub_u64(right_u64(style), st.x as int) as int;
            lemma_lines_emit_descends(
                st,
                text_lines(
                    tbl.entries@,
                    tbl.vert_scale,
                    st.font.current_size,
                    s@,
                    remaining,
                    style.spec_content_width(),
                ),
                style,
            );
        },
        _ => {},
    }
}

/// Law: layout is top-to-bottom on a single page.  Across any run of
/// the interpreter the pen's distance from the top of the page never
/// shrinks: nothing is ever drawn above an earlier line.
pub proof fn lemma_cursor_descends(
    st: GState,
    events: Seq<MdEvent>,
    i: int,
    style: Style,
    fonts: FontSet,
)
    ensures
        (run_from(st, events, i, style, fonts) matches Ok(p) ==> p.0.y >= st.y),
    decreases events.len() - i,
{
    if i < events.len() {
        match step_at(st, events, i, style, fonts) {
            Err(_) => {},
            Ok((st2, ops2, consumed)) => {
                lemma_step_descends(st, events, i, style, fonts);
                let j = if i < i + consumed && i + consumed <= events.len() {
                    i + consumed
                } else {
                    i + 1
                };
                lemma_cursor_descends(st2, events, j, style, fonts);
            },
        }
    }
}

/// Extends a run result by instructions already emitted before it.
pub open spec fn extend_run(
    prefix: Seq<OpModel>,
    r: Result<(GState, Seq<OpModel>), RenderError>,
) -> Result<(GState, Seq<OpModel>), RenderError> {
    match r {
        Ok((st, ops)) => Ok((st, prefix + ops)),
        Err(e) => Err(e),
    }
}

proof fn lemma_extend_run_compose(
    a: Seq<OpModel>,
    b: Seq<OpModel>,
    r: Result<(GState, Seq<OpModel>), RenderError>,
)
    ensures
        extend_run(a, extend_run(b, r)) == extend_run(a + b, r),
{
    match r {
        Ok((st, ops)) => {
            assert(a + (b + ops) =~= (a + b) + ops);
        },
        Err(_) => {},
    }
}

/// The in-house renderer: holds the event stream, a forward-only
/// cursor over it, the layout state and the instructions emitted so
/// far.
pub struct Inhouse {
    pub markdown: Vec<MdEvent>,
    pub position: usize,
    /// Pen position, millipoints from the page's top-left corner.
    pub page_position: (u64, u64),
    /// Cursor snapshot taken at the latest `Start(Link)`.
    pub temp_position: (u64, u64),
    pub list_depth: ListStack,
    pub current_table: Table,
    pub font: Font,
    pub style: Style,
    pub fonts: FontSet,
    pub ops: Vec<DrawOp>,
}

impl Inhouse {
    /// The abstract state the interpreter speaks of.
    pub open spec fn state(&self) -> GState {
        GState {
            font: self.font,
            x: self.page_position.0,
            y: self.page_position.1,
            snap_x: self.temp_position.0,
            snap_y: self.temp_position.1,
            lists: self.list_depth@,
            tpos: self.current_table.position,
        }
    }

    /// Style, fonts and typography within bounds, the cursor inside
    /// the stream, every event well-formed.
    pub open spec fn wf(&self) -> bool {
        &&& self.style.wf()
        &&& self.fonts.wf()
        &&& self.font.wf()
        &&& self.position <= self.markdown@.len()
        &&& forall|i: int| 0 <= i < self.markdown@.len() ==> (#[trigger] self.markdown@[i]).wf()
    }

    /// Sets up a renderer over one event stream.
    pub fn new(markdown: Vec<MdEvent>, style: Style, fonts: FontSet) -> (r: Inhouse)
        requires
            style.wf(),
            fonts.wf(),
            forall|i: int| 0 <= i < markdown@.len() ==> (#[trigger] markdown@[i]).wf(),
        ensures
            r.wf(),
            r.markdown@ == markdown@,
            r.position == 0,
            r.ops@.len() == 0,
            r.style == style,
            r.fonts == fonts,
            r.state() == init_state(style),
    {
        let left = style.horizontal_padding;
        let top = style.vertical_padding;
        let r = Inhouse {
            markdown,
            position: 0,
            page_position: (left, top),
            temp_position: (0, 0),
            list_depth: ListStack::new(),
            current_table: Table::new(),
            font: Font::new(),
            style,
            fonts,
            ops: Vec::new(),
        };
        proof {
            assert(r.state() == init_state(style));
        }
        r
    }

    /// Whether the event cursor is past the last event.
    pub fn is_at_end(&self) -> (r: bool)
        ensures
            r == (self.position >= self.markdown@.len()),
    {
        self.position >= self.markdown.len()
    }

    /// Advances the event cursor by one.
    fn consume(&mut self)
        requires
            old(self).position < old(self).markdown@.len(),
        ensures
            final(self).position == old(self).position + 1,
            *final(self) == (Inhouse { position: final(self).position, ..*old(self) }),
    {
        let n = self.markdown.len();
        proof {
            assert(self.position < n);
        }
        self.position = self.position + 1;
    }

    /// A full line break: emits a break instruction, moves the pen
    /// down one line height and back to the left edge, and resets
    /// formatting.
    fn line_break(&mut self)
        requires
            old(self).wf(),
        ensures
            final(self).wf(),
            *final(self) == (Inhouse {
                page_position: (
                    line_break_state(old(self).state(), old(self).style).x,
                    line_break_state(old(self).state(), old(self).style).y,
                ),
                font: cleared(old(self).font),
                ops: final(self).ops,
                ..*old(self)
            }),
            final(self).ops@ == old(self).ops@.push(DrawOp::Break),
            final(self).state() == line_break_state(old(self).state(), old(self).style),
    {
        self.ops.push(DrawOp::Break);
        let lh = self.font.line_height();
        self.page_position.1 = self.page_position.1.saturating_add(lh);
        self.page_position.0 = self.style.horizontal_padding;
        self.font.clear_typography();
    }

    /// A line break that keeps the current formatting, as used between
    /// wrapped lines and for soft and hard breaks.
    fn line_break_preserve_formatting(&mut self)
        requires
            old(self).wf(),
        ensures
            final(self).wf(),
            *final(self) == (Inhouse {
                page_position: (
                    preserve_break_state(old(self).state(), old(self).style).x,
                    preserve_break_state(old(self).state(), old(self).style).y,
                ),
                ops: final(self).ops,
                ..*old(self)
            }),
            final(self).ops@ == old(self).ops@.push(DrawOp::Break),
            final(self).state() == preserve_break_state(old(self).state(), old(self).style),
    {
        self.ops.push(DrawOp::Break);
        let lh = self.font.line_height();
        self.page_position.1 = self.page_position.1.saturating_add(lh);
        self.page_position.0 = self.style.horizontal_padding;
    }

    /// A horizontal rule: a full-width divider line, then one full
    /// break.
    fn horizontal_rule(&mut self)
        requires
            old(self).wf(),
        ensures
            final(self).wf(),
            final(self).markdown@ == old(self).markdown@,
            final(self).position == old(self).position,
            final(self).style == old(self).style,
            final(self).fonts == old(self).fonts,
            final(self).state() == rule_step(old(self).state(), old(self).style).0,
            op_views(final(self).ops@) == op_views(old(self).ops@) + rule_step(
                old(self).state(),
                old(self).style,
            ).1,
    {
        let lh = self.font.line_height();
        let ry = self.page_position.1.saturating_sub(lh / 5);
        let right = self.style.width - self.style.horizontal_padding;
        self.ops.push(
            DrawOp::Line {
                x_start: self.style.horizontal_padding,
                x_end: right,
                y: ry,
                kind: LineKind::Rule,
            },
        );
        self.line_break();
        proof {
            assert(op_views(final(self).ops@) =~= op_views(old(self).ops@) + rule_step(
                old(self).state(),
                old(self).style,
            ).1);
        }
    }

    /// Lays out and draws one text run at the current pen position:
    /// directly when it fits the remaining room, else line by line
    /// through the wrapper, striking each drawn line through when the
    /// strike flag is active.
    fn render_text_run(&mut self, chars: Vec<char>)
        requires
            old(self).wf(),
            chars@.len() <= MAX_TEXT_LEN,
        ensures
            final(self).wf(),
            final(self).markdown@ == old(self).markdown@,
            final(self).position == old(self).position,
            final(self).style == old(self).style,
            final(self).fonts == old(self).fonts,
            final(self).state() == text_step(
                old(self).state(),
                chars@,
                old(self).style,
                old(self).fonts,
            ).0,
            op_views(final(self).ops@) == op_views(old(self).ops@) + text_step(
                old(self).state(),
                chars@,
                old(self).style,
                old(self).fonts,
            ).1,
    {
        let ghost st0 = self.state();
        let ghost style = self.style;
        let ghost fonts_g = self.fonts;
        let ghost tbl = fonts_g.spec_get(st0.font.spec_variant());
        let v = self.font.get();
        let size = self.font.current_size;
        let w = self.fonts.get(v).measure(&chars, size);
        let right = self.style.width - self.style.horizontal_padding;
        let remaining = right.saturating_sub(self.page_position.0);
        let full = self.style.width - 2 * self.style.horizontal_padding;
        let ghost lv_spec = text_lines(
            tbl.entries@,
            tbl.vert_scale,
            size,
            chars@,
            remaining as int,
            style.spec_content_width(),
        );
        let lines: Vec<(Vec<char>, u64)> = if w <= remaining {
            let mut one: Vec<(Vec<char>, u64)> = Vec::new();
            one.push((chars, w));
            proof {
                assert(line_views(one@) =~= lv_spec);
            }
            one
        } else {
            let wrapped = wrap_text(self.fonts.get(v), size, &chars, remaining, full);
            proof {
                assert(line_views(wrapped@) =~= lv_spec);
            }
            wrapped
        };
        let ghost total = lines_emit(st0, lv_spec, style);
        let n = lines.len();
        let mut i: usize = 0;
        proof {
            assert(lv_spec.skip(0) =~= lv_spec);
            assert(op_views(self.ops@) + lines_emit(self.state(), lv_spec.skip(0), style).1
                =~= op_views(old(self).ops@) + total.1);
        }
        while i < n
            invariant
                self.wf(),
                self.markdown@ == old(self).markdown@,
                self.position == old(self).position,
                self.style == old(self).style,
                style == self.style,
                self.fonts == old(self).fonts,
                n == lines@.len(),
                i <= n,
                line_views(lines@) == lv_spec,
                total == lines_emit(st0, lv_spec, style),
                lines_emit(self.state(), lv_spec.skip(i as int), style).0 == total.0,
                op_views(self.ops@) + lines_emit(self.state(), lv_spec.skip(i as int), style).1
                    == op_views(old(self).ops@) + total.1,
            decreases n - i,
        {
            let ghost st_cur = self.state();
            let ghost sk = lv_spec.skip(i as int);
            proof {
                assert(sk[0] == lv_spec[i as int]);
                assert(lv_spec[i as int] == (lines@[i as int].0@, lines@[i as int].1 as int));
                assert(sk.drop_first() =~= lv_spec.skip(i as int + 1));
            }
            let is_strike = self.font.is_strikethrough;
            let txt = chars_to_string(&lines[i].0);
            let xw = lines[i].1;
            let vv = self.font.get();
            let ghost ops_before = self.ops@;
            self.ops.push(
                DrawOp::Text {
                    x: self.page_position.0,
                    y: self.page_position.1,
                    text: txt,
                    variant: vv,
                    size: self.font.current_size,
                    width: xw,
                },
            );
            proof {
                assert(op_views(self.ops@) =~= op_views(ops_before).push(
                    self.ops@.last()@,
                ));
            }
            if is_strike {
                let lh = self.font.line_height();
                let sy = self.page_position.1.saturating_sub(lh / 5);
                let xe = self.page_position.0.saturating_add(xw);
                let ghost ops_mid = self.ops@;
                self.ops.push(
                    DrawOp::Line {
                        x_start: self.page_position.0,
                        x_end: xe,
                        y: sy,
                        kind: LineKind::Strikethrough,
                    },
                );
                proof {
                    assert(op_views(self.ops@) =~= op_views(ops_mid).push(self.ops@.last()@));
                }
            }
            let ghost head_ops = (if st_cur.font.is_strikethrough {
                seq![
                    OpModel::Text {
                        x: st_cur.x,
                        y: st_cur.y,
                        text: sk[0].0,
                        variant: st_cur.font.spec_variant(),
                        size: st_cur.font.current_size,
                        width: sk[0].1,
                    },
                    OpModel::Line {
                        x_start: st_cur.x,
                        x_end: sat_add_u64(st_cur.x, sk[0].1),
                        y: strike_y(st_cur),
                        kind: LineKind::Strikethrough,
                    },
                ]
            } else {
                seq![
                    OpModel::Text {
                        x: st_cur.x,
                        y: st_cur.y,
                        text: sk[0].0,
                        variant: st_cur.font.spec_variant(),
                        size: st_cur.font.current_size,
                        width: sk[0].1,
                    },
                ]
            });
            proof {
                assert(op_views(self.ops@) =~= op_views(ops_before) + head_ops);
            }
            if i + 1 < n {
                let ghost ops_mid2 = self.ops@;
                self.line_break_preserve_formatting();
                proof {
                    assert(op_views(self.ops@) =~= op_views(ops_mid2).push(OpModel::Break));
                    assert(self.state() == preserve_break_state(st_cur, style));
                    assert(sk.len() >= 2);
                    assert(lines_emit(st_cur, sk, style).1 == head_ops + seq![OpModel::Break]
                        + lines_emit(self.state(), sk.drop_first(), style).1);
                    assert(lines_emit(st_cur, sk, style).0 == lines_emit(
                        self.state(),
                        sk.drop_first(),
                        style,
                    ).0);
                    assert(op_views(self.ops@) =~= op_views(ops_before) + (head_ops + seq![
                        OpModel::Break,
                    ]));
                    assert(op_views(ops_before) + (head_ops + seq![OpModel::Break]) + lines_emit(
                        self.state(),
                        lv_spec.skip(i as int + 1),
                        style,
                    ).1 =~= op_views(ops_before) + lines_emit(st_cur, sk, style).1);
                }
            } else {
                self.page_position.0 = self.page_position.0.saturating_add(xw);
                proof {
                    assert(sk.len() == 1);
                    assert(self.state() == (GState { x: sat_add_u64(st_cur.x, sk[0].1), ..st_cur }));
                    assert(lines_emit(st_cur, sk, style).0 == self.state());
                    assert(lines_emit(st_cur, sk, style).1 == head_ops);
                    assert(lv_spec.skip(i as int + 1) =~= Seq::<(Seq<char>, int)>::empty());
                    assert(lines_emit(self.state(), lv_spec.skip(i as int + 1), style).1
                        =~= Seq::<OpModel>::empty());
                    assert(op_views(self.ops@) + Seq::<OpModel>::empty() =~= op_views(
                        ops_before,
                    ) + head_ops);
                }
            }
            i += 1;
        }
        proof {
            assert(lv_spec.skip(n as int) =~= Seq::<(Seq<char>, int)>::empty());
            assert(lines_emit(self.state(), lv_spec.skip(n as int), style).1 =~= Seq::<
                OpModel,
            >::empty());
            assert(op_views(self.ops@) + Seq::<OpModel>::empty() =~= op_views(self.ops@));
            assert(text_step(st0, chars@, style, fonts_g) == lines_emit(st0, lv_spec, style));
        }
    }

    /// Dispatches one `Start` event, consuming it — and, for a heading
    /// immediately followed by a text run, that text run as well, so
    /// the heading underline lands below the drawn heading.
    #[verifier::rlimit(80)]
    fn handle_start(&mut self) -> (r: Result<(), RenderError>)
        requires
            old(self).wf(),
            old(self).position < old(self).markdown@.len(),
            old(self).markdown@[old(self).position as int] is Start,
        ensures
            final(self).wf(),
            final(self).markdown@ == old(self).markdown@,
            final(self).style == old(self).style,
            final(self).fonts == old(self).fonts,
            (old(self).markdown@[old(self).position as int] matches MdEvent::Start(b) ==> {
                let next = if old(self).position + 1 < old(self).markdown@.len() {
                    Some(old(self).markdown@[old(self).position as int + 1])
                } else {
                    None::<MdEvent>
                };
                match start_step(old(self).state(), b, next, old(self).style, old(self).fonts) {
                    Ok((st2, ops2, c)) => {
                        &&& r is Ok
                        &&& final(self).state() == st2
                        &&& op_views(final(self).ops@) == op_views(old(self).ops@) + ops2
                        &&& final(self).position == old(self).position + c
                        &&& final(self).position <= final(self).markdown@.len()
                    },
                    Err(e) => r == Err::<(), RenderError>(e),
                }
            }),
    {
        let ghost st0 = self.state();
        proof {
            assert(self.markdown@[self.position as int].wf());
        }
        match &self.markdown[self.position] {
            MdEvent::Start(b) => match b {
                Block::Paragraph => {
                    self.consume();
                    self.font.current_size = self.font.regular_size;
                    proof {
                        assert(op_views(self.ops@) =~= op_views(old(self).ops@) + Seq::<
                            OpModel,
                        >::empty());
                    }
                    Ok(())
                },
                Block::Heading(level_ref) => {
                    let level = *level_ref;
                    self.consume();
                    self.font.is_bold = true;
                    let hs = self.font.heading_size(level);
                    self.font.current_size = hs;
                    let ghost st1 = self.state();
                    let ghost inline_ops: Seq<OpModel> = Seq::<OpModel>::empty();
                    if self.position < self.markdown.len() {
                        proof {
                            assert(self.markdown@[self.position as int].wf());
                        }
                        let txt: Option<Vec<char>> = match &self.markdown[self.position] {
                            MdEvent::Text(s) => Some(string_chars(s)),
                            _ => None,
                        };
                        match txt {
                            Some(chars) => {
                                self.consume();
                                self.render_text_run(chars);
                                proof {
                                    inline_ops = text_step(st1, chars@, self.style, self.fonts).1;
                                }
                            },
                            None => {},
                        }
                    }
                    let ghost st2 = self.state();
                    let ghost ops_mid = self.ops@;
                    match self.style.underline_headings {
                        HeaderUnderline::FullPage => {
                            let lh = self.font.line_height();
                            let uy = self.page_position.1.saturating_add(lh / 4);
                            let right = self.style.width - self.style.horizontal_padding;
                            self.ops.push(
                                DrawOp::Line {
                                    x_start: self.style.horizontal_padding,
                                    x_end: right,
                                    y: uy,
                                    kind: LineKind::HeadingUnderline,
                                },
                            );
                            proof {
                                assert(op_views(self.ops@) =~= op_views(ops_mid)
                                    + underline_ops(st2, self.style));
                            }
                        },
                        HeaderUnderline::Disabled => {
                            proof {
                                assert(op_views(self.ops@) =~= op_views(ops_mid)
                                    + underline_ops(st2, self.style));
                            }
                        },
                    }
                    proof {
                        assert(op_views(self.ops@) =~= op_views(old(self).ops@) + (inline_ops
                            + underline_ops(st2, self.style)));
                    }
                    Ok(())
                },
                Block::List(n_ref) => {
                    let n = *n_ref;
                    self.consume();
                    self.list_depth.push(n);
                    proof {
                        assert(op_views(self.ops@) =~= op_views(old(self).ops@) + Seq::<
                            OpModel,
                        >::empty());
                    }
                    Ok(())
                },
                Block::Item => {
                    self.consume();
                    let popped = self.list_depth.pop();
                    match popped {
                        Option::None => {
                            proof {
                                assert(op_views(self.ops@) =~= op_views(old(self).ops@) + Seq::<
                                    OpModel,
                                >::empty());
                            }
                            Err(RenderError::StructuralMismatch)
                        },
                        Option::Some(frame) => {
                            let marker = marker_chars(&frame);
                            proof {
                                match frame {
                                    Option::Some(n) => lemma_dec_chars_len_u64(n),
                                    Option::None => {},
                                }
                            }
                            let v = self.font.get();
                            let size = self.font.current_size;
                            let mw = self.fonts.get(v).measure(&marker, size);
                            let txt = chars_to_string(&marker);
                            self.ops.push(
                                DrawOp::Text {
                                    x: self.page_position.0,
                                    y: self.page_position.1,
                                    text: txt,
                                    variant: v,
                                    size,
                                    width: mw,
                                },
                            );
                            let nf = frame_after(&frame);
                            self.list_depth.push(nf);
                            self.page_position.0 = self.page_position.0.saturating_add(mw);
                            proof {
                                assert(op_views(self.ops@) =~= op_views(old(self).ops@) + seq![
                                    OpModel::Text {
                                        x: st0.x,
                                        y: st0.y,
                                        text: spec_marker(st0.lists.last()),
                                        variant: st0.font.spec_variant(),
                                        size: st0.font.current_size,
                                        width: mw as int,
                                    },
                                ]);
                            }
                            Ok(())
                        },
                    }
                },
                Block::Emphasis => {
                    self.consume();
                    self.font.is_italic = true;
                    proof {
                        assert(op_views(self.ops@) =~= op_views(old(self).ops@) + Seq::<
                            OpModel,
                        >::empty());
                    }
                    Ok(())
                },
                Block::Strong => {
                    self.consume();
                    self.font.is_bold = true;
                    proof {
                        assert(op_views(self.ops@) =~= op_views(old(self).ops@) + Seq::<
                            OpModel,
                        >::empty());
                    }
                    Ok(())
                },
                Block::Strikethrough => {
                    self.consume();
                    self.font.is_strikethrough = true;
                    proof {
                        assert(op_views(self.ops@) =~= op_views(old(self).ops@) + Seq::<
                            OpModel,
                        >::empty());
                    }
                    Ok(())
                },
                Block::Link(_) => {
                    self.consume();
                    self.temp_position = self.page_position;
                    proof {
                        assert(op_views(self.ops@) =~= op_views(old(self).ops@) + Seq::<
                            OpModel,
                        >::empty());
                    }
                    Ok(())
                },
                Block::Table => {
                    self.consume();
                    proof {
                        assert(op_views(self.ops@) =~= op_views(old(self).ops@) + Seq::<
                            OpModel,
                        >::empty());
                    }
                    Ok(())
                },
                Block::TableHead => {
                    self.consume();
                    self.current_table.position = TablePosition::Head;
                    proof {
                        assert(op_views(self.ops@) =~= op_views(old(self).ops@) + Seq::<
                            OpModel,
                        >::empty());
                    }
                    Ok(())
                },
                Block::TableRow => {
                    self.consume();
                    self.current_table.position = TablePosition::Row;
                    proof {
                        assert(op_views(self.ops@) =~= op_views(old(self).ops@) + Seq::<
                            OpModel,
                        >::empty());
                    }
                    Ok(())
                },
                Block::TableCell => {
                    self.consume();
                    proof {
                        assert(op_views(self.ops@) =~= op_views(old(self).ops@) + Seq::<
                            OpModel,
                        >::empty());
                    }
                    Ok(())
                },
            },
            _ => Err(RenderError::StructuralMismatch),
        }
    }

    /// Dispatches one `End` event, consuming it.
    fn handle_end(&mut self)
        requires
            old(self).wf(),
            old(self).position < old(self).markdown@.len(),
            old(self).markdown@[old(self).position as int] is End,
        ensures
            final(self).wf(),
            final(self).markdown@ == old(self).markdown@,
            final(self).style == old(self).style,
            final(self).fonts == old(self).fonts,
            final(self).position == old(self).position + 1,
            (old(self).markdown@[old(self).position as int] matches MdEvent::End(b) ==> {
                let (st2, ops2) = end_step(old(self).state(), b, old(self).style);
                &&& final(self).state() == st2
                &&& op_views(final(self).ops@) == op_views(old(self).ops@) + ops2
            }),
    {
        let ghost st0 = self.state();
        match &self.markdown[self.position] {
            MdEvent::End(b) => match b {
                Block::Paragraph => {
                    self.consume();
                    self.line_break();
                    proof {
                        assert(op_views(self.ops@) =~= op_views(old(self).ops@) + seq![
                            OpModel::Break,
                        ]);
                    }
                },
                Block::Heading(_) => {
                    self.consume();
                    self.line_break();
                    proof {
                        assert(op_views(self.ops@) =~= op_views(old(self).ops@) + seq![
                            OpModel::Break,
                        ]);
                    }
                },
                Block::List(_) => {
                    self.consume();
                    let popped = self.list_depth.pop();
                    self.line_break();
                    proof {
                        assert(op_views(self.ops@) =~= op_views(old(self).ops@) + seq![
                            OpModel::Break,
                        ]);
                    }
                },
                Block::Item => {
                    self.consume();
                    self.line_break();
                    proof {
                        assert(op_views(self.ops@) =~= op_views(old(self).ops@) + seq![
                            OpModel::Break,
                        ]);
                    }
                },
                Block::Emphasis => {
                    self.consume();
                    self.font.is_italic = false;
                    proof {
                        assert(op_views(self.ops@) =~= op_views(old(self).ops@) + Seq::<
                            OpModel,
                        >::empty());
                    }
                },
                Block::Strong => {
                    self.consume();
                    self.font.is_bold = false;
                    proof {
                        assert(op_views(self.ops@) =~= op_views(old(self).ops@) + Seq::<
                            OpModel,
                        >::empty());
                    }
                },
                Block::Strikethrough => {
                    self.consume();
                    self.font.is_strikethrough = false;
                    proof {
                        assert(op_views(self.ops@) =~= op_views(old(self).ops@) + Seq::<
                            OpModel,
                        >::empty());
                    }
                },
                Block::Link(dest_ref) => {
                    let dest = dest_ref.clone();
                    self.consume();
                    self.ops.push(
                        DrawOp::Link {
                            x_start: self.temp_position.0,
                            y_start: self.temp_position.1,
                            x_end: self.page_position.0,
                            y_end: self.page_position.1,
                            dest,
                        },
                    );
                    proof {
                        assert(op_views(self.ops@) =~= op_views(old(self).ops@) + end_step(
                            st0,
                            old(self).markdown@[old(self).position as int]->End_0,
                            old(self).style,
                        ).1);
                    }
                },
                Block::Table => {
                    self.consume();
                    self.current_table.position = TablePosition::Outside;
                    proof {
                        assert(op_views(self.ops@) =~= op_views(old(self).ops@) + Seq::<
                            OpModel,
                        >::empty());
                    }
                },
                Block::TableHead => {
                    self.consume();
                    self.current_table.position = TablePosition::Outside;
                    proof {
                        assert(op_views(self.ops@) =~= op_views(old(self).ops@) + Seq::<
                            OpModel,
                        >::empty());
                    }
                },
                Block::TableRow => {
                    self.consume();
                    self.current_table.position = TablePosition::Outside;
                    proof {
                        assert(op_views(self.ops@) =~= op_views(old(self).ops@) + Seq::<
                            OpModel,
                        >::empty());
                    }
                },
                Block::TableCell => {
                    self.consume();
                    proof {
                        assert(op_views(self.ops@) =~= op_views(old(self).ops@) + Seq::<
                            OpModel,
                        >::empty());
                    }
                },
            },
            _ => {
                self.consume();
            },
        }
    }

    /// Dispatches the event under the cursor.
    fn render(&mut self) -> (r: Result<(), RenderError>)
        requires
            old(self).wf(),
            old(self).position < old(self).markdown@.len(),
        ensures
            final(self).wf(),
            final(self).markdown@ == old(self).markdown@,
            final(self).style == old(self).style,
            final(self).fonts == old(self).fonts,
            match step_at(
                old(self).state(),
                old(self).markdown@,
                old(self).position as int,
                old(self).style,
                old(self).fonts,
            ) {
                Ok((st2, ops2, c)) => {
                    &&& r is Ok
                    &&& final(self).state() == st2
                    &&& op_views(final(self).ops@) == op_views(old(self).ops@) + ops2
                    &&& final(self).position == old(self).position + c
                    &&& final(self).position <= final(self).markdown@.len()
                },
                Err(e) => r == Err::<(), RenderError>(e),
            },
    {
        let ghost st0 = self.state();
        proof {
            assert(self.markdown@[self.position as int].wf());
        }
        match &self.markdown[self.position] {
            MdEvent::Start(_) => self.handle_start(),
            MdEvent::End(_) => {
                self.handle_end();
                Ok(())
            },
            MdEvent::Text(s) => {
                let chars = string_chars(s);
                self.consume();
                self.render_text_run(chars);
                Ok(())
            },
            MdEvent::SoftBreak => {
                self.consume();
                self.line_break_preserve_formatting();
                proof {
                    assert(op_views(self.ops@) =~= op_views(old(self).ops@) + seq![
                        OpModel::Break,
                    ]);
                }
                Ok(())
            },
            MdEvent::HardBreak => {
                self.consume();
                self.line_break_preserve_formatting();
                proof {
                    assert(op_views(self.ops@) =~= op_views(old(self).ops@) + seq![
                        OpModel::Break,
                    ]);
                }
                Ok(())
            },
            MdEvent::Rule => {
                self.consume();
                self.horizontal_rule();
                Ok(())
            },
            MdEvent::Unsupported => Err(RenderError::Unsupported),
        }
    }

    /// Renders the whole stream: dispatches every event in order,
    /// stopping at the first error.
    pub fn render_doc(&mut self) -> (r: Result<(), RenderError>)
        requires
            old(self).wf(),
        ensures
            final(self).wf(),
            final(self).markdown@ == old(self).markdown@,
            final(self).style == old(self).style,
            final(self).fonts == old(self).fonts,
            match run_from(
                old(self).state(),
                old(self).markdown@,
                old(self).position as int,
                old(self).style,
                old(self).fonts,
            ) {
                Ok((st2, ops2)) => {
                    &&& r is Ok
                    &&& final(self).state() == st2
                    &&& op_views(final(self).ops@) == op_views(old(self).ops@) + ops2
                    &&& final(self).position == final(self).markdown@.len()
                },
                Err(e) => r == Err::<(), RenderError>(e),
            },
    {
        let ghost events = self.markdown@;
        let ghost style = self.style;
        let ghost fonts_g = self.fonts;
        let ghost run0 = run_from(
            self.state(),
            events,
            self.position as int,
            style,
            fonts_g,
        );
        let ghost ops0_len = self.ops@.len();
        proof {
            assert(op_views(self.ops@).take(ops0_len as int) =~= op_views(self.ops@));
            match run_from(self.state(), events, self.position as int, style, fonts_g) {
                Ok((s, o)) => {
                    assert(op_views(self.ops@).skip(ops0_len as int) =~= Seq::<OpModel>::empty());
                    assert(Seq::<OpModel>::empty() + o =~= o);
                },
                Err(_) => {},
            }
        }
        while !self.is_at_end()
            invariant
                self.wf(),
                self.markdown@ == events,
                self.style == style,
                self.fonts == fonts_g,
                events == old(self).markdown@,
                style == old(self).style,
                fonts_g == old(self).fonts,
                run0 == run_from(
                    old(self).state(),
                    events,
                    old(self).position as int,
                    style,
                    fonts_g,
                ),
                ops0_len <= self.ops@.len(),
                op_views(self.ops@).take(ops0_len as int) == op_views(old(self).ops@),
                run0 == extend_run(
                    op_views(self.ops@).skip(ops0_len as int),
                    run_from(self.state(), events, self.position as int, style, fonts_g),
                ),
            decreases events.len() - self.position,
        {
            let ghost st_pre = self.state();
            let ghost pos_pre = self.position as int;
            let ghost ops_pre = self.ops@;
            let step = self.render();
            match step {
                Err(e) => {
                    proof {
                        assert(run_from(st_pre, events, pos_pre, style, fonts_g) == Err::<
                            (GState, Seq<OpModel>),
                            RenderError,
                        >(e));
                        assert(run0 == Err::<(GState, Seq<OpModel>), RenderError>(e));
                    }
                    return Err(e);
                },
                Ok(()) => {
                    proof {
                        let stepped = step_at(st_pre, events, pos_pre, style, fonts_g);
                        match stepped {
                            Ok((st2, ops2, c)) => {
                                assert(run_from(st_pre, events, pos_pre, style, fonts_g)
                                    == extend_run(
                                    ops2,
                                    run_from(st2, events, pos_pre + c, style, fonts_g),
                                ));
                                lemma_extend_run_compose(
                                    op_views(ops_pre).skip(ops0_len as int),
                                    ops2,
                                    run_from(st2, events, pos_pre + c, style, fonts_g),
                                );
                                assert(op_views(self.ops@) =~= op_views(ops_pre) + ops2);
                                assert(op_views(self.ops@).skip(ops0_len as int) =~= op_views(
                                    ops_pre,
                                ).skip(ops0_len as int) + ops2);
                                assert(op_views(self.ops@).take(ops0_len as int) =~= op_views(
                                    ops_pre,
                                ).take(ops0_len as int));
                            },
                            Err(_) => {
                                assert(false);
                            },
                        }
                    }
                },
            }
        }
        proof {
            assert(self.position == events.len());
            assert(run_from(self.state(), events, self.position as int, style, fonts_g)
                == Ok::<(GState, Seq<OpModel>), RenderError>((
                self.state(),
                Seq::<OpModel>::empty(),
            )));
            match run0 {
                Ok((s2, o2)) => {
                    assert(op_views(self.ops@).skip(ops0_len as int) + Seq::<OpModel>::empty()
                        =~= op_views(self.ops@).skip(ops0_len as int));
                    assert(o2 == op_views(self.ops@).skip(ops0_len as int));
                    assert(op_views(self.ops@) =~= op_views(self.ops@).take(ops0_len as int)
                        + op_views(self.ops@).skip(ops0_len as int));
                    assert(op_views(final(self).ops@) =~= op_views(old(self).ops@) + o2);
                },
                Err(_) => {
                    assert(false);
                },
            }
        }
        Ok(())
    }

    /// Hands back the drawing instructions collected so far.
    pub fn into_ops(self) -> (r: Vec<DrawOp>)
        ensures
            r == self.ops,
    {
        self.ops
    }
}

/// Renders one event stream to its drawing instructions, or the first
/// error: the whole run is exactly what [`spec_render`] states.
pub fn render_events(markdown: Vec<MdEvent>, style: Style, fonts: FontSet) -> (r: Result<
    Vec<DrawOp>,
    RenderError,
>)
    requires
        style.wf(),
        fonts.wf(),
        forall|i: int| 0 <= i < markdown@.len() ==> (#[trigger] markdown@[i]).wf(),
    ensures
        match spec_render(markdown@, style, fonts) {
            Ok(ops) => r matches Ok(v) && op_views(v@) == ops,
            Err(e) => r == Err::<Vec<DrawOp>, RenderError>(e),
        },
{
    let mut renderer = Inhouse::new(markdown, style, fonts);
    let outcome = renderer.render_doc();
    match outcome {
        Ok(()) => {
            proof {
                match run_from(init_state(style), renderer.markdown@, 0, style, fonts) {
                    Ok((s2, o2)) => {
                        assert(Seq::<OpModel>::empty() + o2 =~= o2);
                    },
                    Err(_) => {
                        assert(false);
                    },
                }
            }
            Ok(renderer.into_ops())
        },
        Err(e) => Err(e),
    }
}

} // verus!

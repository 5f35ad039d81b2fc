use jamdr::engine::{render_events, Inhouse, RenderError};
use jamdr::event::{Block, MdEvent};
use jamdr::font::FontVariant;
use jamdr::metrics::{FontSet, GlyphTable};
use jamdr::ops::{DrawOp, LineKind};
use jamdr::style::{HeaderUnderline, Style};

/// Four empty glyph tables at vertical scale 1000: every character
/// falls back to 1000 units, so a character's width in millipoints
/// equals the font size.
fn flat_fonts() -> FontSet {
    FontSet {
        regular: GlyphTable::new(1000),
        bold: GlyphTable::new(1000),
        italic: GlyphTable::new(1000),
        bold_italic: GlyphTable::new(1000),
    }
}

/// A wide page: content box from x = 10000 to x = 490000.
fn wide_style() -> Style {
    Style {
        width: 500000,
        height: 500000,
        vertical_padding: 10000,
        horizontal_padding: 10000,
        underline_headings: HeaderUnderline::FullPage,
    }
}

/// A narrow page: content box from x = 10000 to x = 90000.
fn narrow_style() -> Style {
    Style {
        width: 100000,
        height: 500000,
        vertical_padding: 10000,
        horizontal_padding: 10000,
        underline_headings: HeaderUnderline::FullPage,
    }
}

fn text(s: &str) -> MdEvent {
    MdEvent::Text(String::from(s))
}

fn render(events: Vec<MdEvent>, style: Style) -> Vec<DrawOp> {
    render_events(events, style, flat_fonts()).unwrap()
}

#[test]
fn bold_and_regular_runs_share_a_line() {
    // "**bold** text": one paragraph, two text runs; the first is
    // drawn bold, the second regular, with no break between them.
    let events = vec![
        MdEvent::Start(Block::Paragraph),
        MdEvent::Start(Block::Strong),
        text("bold"),
        MdEvent::End(Block::Strong),
        text(" text"),
        MdEvent::End(Block::Paragraph),
    ];
    let ops = render(events, wide_style());
    assert_eq!(ops.len(), 3);
    assert_eq!(
        ops[0],
        DrawOp::Text {
            x: 10000,
            y: 10000,
            text: String::from("bold"),
            variant: FontVariant::Bold,
            size: 10000,
            width: 40000,
        }
    );
    assert_eq!(
        ops[1],
        DrawOp::Text {
            x: 50000,
            y: 10000,
            text: String::from(" text"),
            variant: FontVariant::Regular,
            size: 10000,
            width: 50000,
        }
    );
    assert_eq!(ops[2], DrawOp::Break);
}

#[test]
fn heading_then_body() {
    // "# Title\n\nBody": heading drawn bold at the header size, one
    // underline at the heading's line, two breaks in all, body at the
    // regular size.
    let events = vec![
        MdEvent::Start(Block::Heading(1)),
        text("Title"),
        MdEvent::End(Block::Heading(1)),
        MdEvent::Start(Block::Paragraph),
        text("Body"),
        MdEvent::End(Block::Paragraph),
    ];
    let ops = render(events, wide_style());
    assert_eq!(ops.len(), 5);
    assert_eq!(
        ops[0],
        DrawOp::Text {
            x: 10000,
            y: 10000,
            text: String::from("Title"),
            variant: FontVariant::Bold,
            size: 18000,
            width: 90000,
        }
    );
    // Underline a quarter line height (28800 / 4) below the baseline.
    assert_eq!(
        ops[1],
        DrawOp::Line { x_start: 10000, x_end: 490000, y: 17200, kind: LineKind::HeadingUnderline }
    );
    assert_eq!(ops[2], DrawOp::Break);
    assert_eq!(
        ops[3],
        DrawOp::Text {
            x: 10000,
            y: 38800,
            text: String::from("Body"),
            variant: FontVariant::Regular,
            size: 10000,
            width: 40000,
        }
    );
    assert_eq!(ops[4], DrawOp::Break);
}

#[test]
fn heading_levels_shrink() {
    for level in 2u8..=5u8 {
        let shallower = vec![
            MdEvent::Start(Block::Heading(level - 1)),
            text("t"),
            MdEvent::End(Block::Heading(level - 1)),
        ];
        let deeper = vec![
            MdEvent::Start(Block::Heading(level)),
            text("t"),
            MdEvent::End(Block::Heading(level)),
        ];
        let size_of = |ops: &Vec<DrawOp>| match &ops[0] {
            DrawOp::Text { size, .. } => *size,
            _ => panic!("expected a text run"),
        };
        let a = size_of(&render(shallower, wide_style()));
        let b = size_of(&render(deeper, wide_style()));
        assert!(b < a, "level {} should be smaller than level {}", level, level - 1);
    }
}

#[test]
fn heading_size_formula() {
    // 18000 minus 4000 per level below one, clamped at zero.
    let expected = [18000u64, 14000, 10000, 6000, 2000, 0];
    for level in 1u8..=6u8 {
        let events = vec![
            MdEvent::Start(Block::Heading(level)),
            text("t"),
            MdEvent::End(Block::Heading(level)),
        ];
        let ops = render(events, wide_style());
        match &ops[0] {
            DrawOp::Text { size, .. } => assert_eq!(*size, expected[(level - 1) as usize]),
            _ => panic!("expected a text run"),
        }
    }
}

#[test]
fn rule_draws_divider_and_one_break() {
    // "---" alone: one full-width rule, one break, no text.
    let events = vec![MdEvent::Rule];
    let ops = render(events, wide_style());
    assert_eq!(ops.len(), 2);
    // Initial size is 8000, so the line height is 12800 and the rule
    // sits 12800 / 5 above the baseline.
    assert_eq!(
        ops[0],
        DrawOp::Line { x_start: 10000, x_end: 490000, y: 7440, kind: LineKind::Rule }
    );
    assert_eq!(ops[1], DrawOp::Break);
}

#[test]
fn overlong_word_still_flushes() {
    // A single word wider than the whole content box is still drawn
    // as one line rather than dropped.
    let word = "abcdefghijklmnopqrstuvwxyzabcdefghijklmnopqrstuvwxyzabcdefgh";
    let events = vec![
        MdEvent::Start(Block::Paragraph),
        text(word),
        MdEvent::End(Block::Paragraph),
    ];
    let ops = render(events, narrow_style());
    let texts: Vec<&DrawOp> = ops.iter().filter(|op| matches!(op, DrawOp::Text { .. })).collect();
    assert_eq!(texts.len(), 1);
    match texts[0] {
        DrawOp::Text { text: t, width, .. } => {
            assert_eq!(t, word);
            assert_eq!(*width, 10000 * word.len() as u64);
        }
        _ => unreachable!(),
    }
}

#[test]
fn wrapped_run_breaks_between_lines() {
    // "aaa bbb ccc" at 10000 per char against an 80000-wide content
    // box: "aaa bbb" fits the first line, "ccc" goes to the second.
    let events = vec![
        MdEvent::Start(Block::Paragraph),
        text("aaa bbb ccc"),
        MdEvent::End(Block::Paragraph),
    ];
    let ops = render(events, narrow_style());
    assert_eq!(ops.len(), 4);
    assert_eq!(
        ops[0],
        DrawOp::Text {
            x: 10000,
            y: 10000,
            text: String::from("aaa bbb"),
            variant: FontVariant::Regular,
            size: 10000,
            width: 70000,
        }
    );
    assert_eq!(ops[1], DrawOp::Break);
    assert_eq!(
        ops[2],
        DrawOp::Text {
            x: 10000,
            y: 26000,
            text: String::from("ccc"),
            variant: FontVariant::Regular,
            size: 10000,
            width: 30000,
        }
    );
    assert_eq!(ops[3], DrawOp::Break);
}

#[test]
fn exact_fit_stays_on_one_line() {
    // Eight characters at 10000 each exactly fill the 80000 content
    // box: no wrapping, the run is drawn as given.
    let events = vec![
        MdEvent::Start(Block::Paragraph),
        text("aa bb cc"),
        MdEvent::End(Block::Paragraph),
    ];
    let ops = render(events, narrow_style());
    assert_eq!(ops.len(), 2);
    assert_eq!(
        ops[0],
        DrawOp::Text {
            x: 10000,
            y: 10000,
            text: String::from("aa bb cc"),
            variant: FontVariant::Regular,
            size: 10000,
            width: 80000,
        }
    );
    assert_eq!(ops[1], DrawOp::Break);
}

#[test]
fn ordered_list_counts_from_start() {
    let events = vec![
        MdEvent::Start(Block::List(Some(3))),
        MdEvent::Start(Block::Item),
        text("a"),
        MdEvent::End(Block::Item),
        MdEvent::Start(Block::Item),
        text("b"),
        MdEvent::End(Block::Item),
        MdEvent::End(Block::List(Some(3))),
    ];
    let ops = render(events, wide_style());
    let markers: Vec<String> = ops
        .iter()
        .filter_map(|op| match op {
            DrawOp::Text { text: t, .. } if t.starts_with("  ") => Some(t.clone()),
            _ => None,
        })
        .collect();
    assert_eq!(markers, vec![String::from("  3  "), String::from("  4  ")]);
}

#[test]
fn bulleted_list_markers() {
    let events = vec![
        MdEvent::Start(Block::List(None)),
        MdEvent::Start(Block::Item),
        text("a"),
        MdEvent::End(Block::Item),
        MdEvent::Start(Block::Item),
        text("b"),
        MdEvent::End(Block::Item),
        MdEvent::End(Block::List(None)),
    ];
    let ops = render(events, wide_style());
    let markers: Vec<String> = ops
        .iter()
        .filter_map(|op| match op {
            DrawOp::Text { text: t, .. } if t.starts_with("  ") => Some(t.clone()),
            _ => None,
        })
        .collect();
    assert_eq!(markers, vec![String::from("  \u{2022}  "), String::from("  \u{2022}  ")]);
}

#[test]
fn strong_pair_restores_bold_flag() {
    // After End(Strong) the next run is regular again; nesting a pair
    // around an unstyled state restores it.
    let events = vec![
        MdEvent::Start(Block::Paragraph),
        text("a"),
        MdEvent::Start(Block::Strong),
        text("b"),
        MdEvent::End(Block::Strong),
        text("c"),
        MdEvent::End(Block::Paragraph),
    ];
    let ops = render(events, wide_style());
    let variants: Vec<FontVariant> = ops
        .iter()
        .filter_map(|op| match op {
            DrawOp::Text { variant, .. } => Some(*variant),
            _ => None,
        })
        .collect();
    assert_eq!(
        variants,
        vec![FontVariant::Regular, FontVariant::Bold, FontVariant::Regular]
    );
}

#[test]
fn emphasis_and_strong_combine() {
    let events = vec![
        MdEvent::Start(Block::Paragraph),
        MdEvent::Start(Block::Strong),
        MdEvent::Start(Block::Emphasis),
        text("x"),
        MdEvent::End(Block::Emphasis),
        MdEvent::End(Block::Strong),
        MdEvent::End(Block::Paragraph),
    ];
    let ops = render(events, wide_style());
    match &ops[0] {
        DrawOp::Text { variant, .. } => assert_eq!(*variant, FontVariant::BoldItalic),
        _ => panic!("expected a text run"),
    }
}

#[test]
fn soft_break_preserves_formatting() {
    let events = vec![
        MdEvent::Start(Block::Paragraph),
        MdEvent::Start(Block::Strong),
        text("a"),
        MdEvent::SoftBreak,
        text("b"),
        MdEvent::End(Block::Strong),
        MdEvent::End(Block::Paragraph),
    ];
    let ops = render(events, wide_style());
    assert_eq!(ops.len(), 4);
    assert!(matches!(
        ops[0],
        DrawOp::Text { variant: FontVariant::Bold, y: 10000, .. }
    ));
    assert_eq!(ops[1], DrawOp::Break);
    // The second run keeps the bold flag and starts the next line.
    assert!(matches!(
        ops[2],
        DrawOp::Text { variant: FontVariant::Bold, x: 10000, y: 26000, .. }
    ));
    assert_eq!(ops[3], DrawOp::Break);
}

#[test]
fn strikethrough_draws_strike_line() {
    let events = vec![
        MdEvent::Start(Block::Paragraph),
        MdEvent::Start(Block::Strikethrough),
        text("abc"),
        MdEvent::End(Block::Strikethrough),
        MdEvent::End(Block::Paragraph),
    ];
    let ops = render(events, wide_style());
    assert_eq!(ops.len(), 3);
    assert!(matches!(ops[0], DrawOp::Text { .. }));
    // Strike a fifth of the 16000 line height above the baseline,
    // spanning the run's measured width.
    assert_eq!(
        ops[1],
        DrawOp::Line { x_start: 10000, x_end: 40000, y: 6800, kind: LineKind::Strikethrough }
    );
    assert_eq!(ops[2], DrawOp::Break);
}

#[test]
fn link_region_spans_snapshot_to_cursor() {
    let events = vec![
        MdEvent::Start(Block::Paragraph),
        MdEvent::Start(Block::Link(String::from("https://e"))),
        text("x"),
        MdEvent::End(Block::Link(String::from("https://e"))),
        MdEvent::End(Block::Paragraph),
    ];
    let ops = render(events, wide_style());
    assert_eq!(
        ops[1],
        DrawOp::Link {
            x_start: 10000,
            y_start: 10000,
            x_end: 20000,
            y_end: 10000,
            dest: String::from("https://e"),
        }
    );
}

#[test]
fn disabled_underline_draws_no_line() {
    let style = Style { underline_headings: HeaderUnderline::Disabled, ..wide_style() };
    let events = vec![
        MdEvent::Start(Block::Heading(1)),
        text("Title"),
        MdEvent::End(Block::Heading(1)),
    ];
    let ops = render_events(events, style, flat_fonts()).unwrap();
    assert!(ops.iter().all(|op| !matches!(op, DrawOp::Line { .. })));
}

#[test]
fn unsupported_event_is_fatal() {
    let events = vec![MdEvent::Start(Block::Paragraph), MdEvent::Unsupported];
    let r = render_events(events, wide_style(), flat_fonts());
    assert_eq!(r.unwrap_err(), RenderError::Unsupported);
}

#[test]
fn item_outside_list_is_a_structural_error() {
    let events = vec![MdEvent::Start(Block::Item)];
    let r = render_events(events, wide_style(), flat_fonts());
    assert_eq!(r.unwrap_err(), RenderError::StructuralMismatch);
}

#[test]
fn stray_list_end_is_tolerated() {
    let events = vec![MdEvent::End(Block::List(None))];
    let ops = render(events, wide_style());
    assert_eq!(ops, vec![DrawOp::Break]);
}

#[test]
fn empty_text_run_draws_empty_run() {
    let events = vec![
        MdEvent::Start(Block::Paragraph),
        text(""),
        MdEvent::End(Block::Paragraph),
    ];
    let ops = render(events, wide_style());
    assert_eq!(ops.len(), 2);
    assert_eq!(
        ops[0],
        DrawOp::Text {
            x: 10000,
            y: 10000,
            text: String::new(),
            variant: FontVariant::Regular,
            size: 10000,
            width: 0,
        }
    );
    assert_eq!(ops[1], DrawOp::Break);
}

#[test]
fn nested_lists_keep_their_own_counters() {
    let events = vec![
        MdEvent::Start(Block::List(Some(1))),
        MdEvent::Start(Block::Item),
        MdEvent::Start(Block::List(None)),
        MdEvent::Start(Block::Item),
        MdEvent::End(Block::Item),
        MdEvent::End(Block::List(None)),
        MdEvent::End(Block::Item),
        MdEvent::Start(Block::Item),
        MdEvent::End(Block::Item),
        MdEvent::End(Block::List(Some(1))),
    ];
    let ops = render(events, wide_style());
    let markers: Vec<String> = ops
        .iter()
        .filter_map(|op| match op {
            DrawOp::Text { text: t, .. } => Some(t.clone()),
            _ => None,
        })
        .collect();
    assert_eq!(
        markers,
        vec![
            String::from("  1  "),
            String::from("  \u{2022}  "),
            String::from("  2  ")
        ]
    );
}

#[test]
fn empty_stream_renders_nothing() {
    let ops = render(Vec::new(), wide_style());
    assert!(ops.is_empty());
}

#[test]
fn renderer_cursor_reaches_the_end() {
    let events = vec![MdEvent::Start(Block::Paragraph), text("hi"), MdEvent::End(Block::Paragraph)];
    let mut renderer = Inhouse::new(events, wide_style(), flat_fonts());
    assert!(!renderer.is_at_end());
    renderer.render_doc().unwrap();
    assert!(renderer.is_at_end());
    let ops = renderer.into_ops();
    assert_eq!(ops.len(), 2);
}

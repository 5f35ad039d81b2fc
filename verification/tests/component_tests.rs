use jamdr::cli::{Arguments, ArgsError, BackendType};
use jamdr::digits::u64_to_dec_chars;
use jamdr::list::{marker_chars, ListStack};
use jamdr::metrics::GlyphTable;
use jamdr::strutil::{chars_to_string, string_chars};
use jamdr::table::{Table, TablePosition};
use jamdr::wrap::{split_text, wrap_text};

fn chars(s: &str) -> Vec<char> {
    let mut v = Vec::new();
    for c in s.chars() {
        v.push(c);
    }
    v
}

#[test]
fn decimal_rendering_zero() {
    assert_eq!(u64_to_dec_chars(0), vec!['0']);
}

#[test]
fn decimal_rendering_multi_digit() {
    assert_eq!(chars_to_string(&u64_to_dec_chars(12345)), "12345");
}

#[test]
fn decimal_rendering_max_counter() {
    assert_eq!(
        chars_to_string(&u64_to_dec_chars(u64::MAX)),
        "18446744073709551615"
    );
}

#[test]
fn chars_to_string_builds_each_character() {
    // Would fail if the underlying push handed the string back unchanged.
    assert_eq!(chars_to_string(&chars("ab")), "ab");
    assert_eq!(chars_to_string(&chars("")), "");
}

#[test]
fn string_chars_round_trip() {
    let s = String::from("wrap me");
    assert_eq!(chars_to_string(&string_chars(&s)), s);
}

#[test]
fn ordered_marker_text() {
    assert_eq!(chars_to_string(&marker_chars(&Some(7))), "  7  ");
}

#[test]
fn bulleted_marker_text() {
    assert_eq!(chars_to_string(&marker_chars(&None)), "  \u{2022}  ");
}

#[test]
fn list_stack_push_pop() {
    let mut s = ListStack::new();
    assert_eq!(s.depth(), 0);
    s.push(Some(3));
    s.push(None);
    assert_eq!(s.depth(), 2);
    assert_eq!(s.pop(), Some(None));
    assert_eq!(s.pop(), Some(Some(3)));
    assert_eq!(s.pop(), None);
    assert_eq!(s.depth(), 0);
}

#[test]
fn glyph_table_lookup_and_fallback() {
    let mut t = GlyphTable::new(1000);
    t.insert('A' as u32, 500);
    assert_eq!(t.advance('A'), 500);
    // A character without an entry takes the fallback width.
    assert_eq!(t.advance('B'), 1000);
}

#[test]
fn glyph_table_first_entry_wins() {
    let mut t = GlyphTable::new(1000);
    t.insert('A' as u32, 500);
    t.insert('A' as u32, 900);
    assert_eq!(t.advance('A'), 500);
}

#[test]
fn measure_scales_by_size_and_vert_scale() {
    let mut t = GlyphTable::new(1000);
    t.insert('A' as u32, 500);
    // 'A' is 500 units, 'B' falls back to 1000; at size 2000 over
    // scale 1000 the run measures (500 + 1000) * 2000 / 1000.
    assert_eq!(t.measure(&chars("AB"), 2000), 3000);
}

#[test]
fn measure_empty_text_is_zero() {
    let t = GlyphTable::new(2048);
    assert_eq!(t.measure(&chars(""), 10000), 0);
}

#[test]
fn split_keeps_empty_words_between_spaces() {
    let words = split_text(&chars("a  b"));
    assert_eq!(words.len(), 3);
    assert_eq!(words[0], chars("a"));
    assert_eq!(words[1], chars(""));
    assert_eq!(words[2], chars("b"));
}

#[test]
fn wrap_packs_greedily_and_resets_budget() {
    // Every char is 1000 units at scale 1000: width == size per char.
    let t = GlyphTable::new(1000);
    // Words of 3 chars at size 10000: word 30000, space 10000.
    let lines = wrap_text(&t, 10000, &chars("aaa bbb ccc"), 80000, 80000);
    assert_eq!(lines.len(), 2);
    assert_eq!(chars_to_string(&lines[0].0), "aaa bbb");
    assert_eq!(lines[0].1, 70000);
    assert_eq!(chars_to_string(&lines[1].0), "ccc");
    assert_eq!(lines[1].1, 30000);
}

#[test]
fn wrap_overlong_word_gets_its_own_line() {
    let t = GlyphTable::new(1000);
    // One 12-char word (120000) against a 50000 budget: still one line.
    let lines = wrap_text(&t, 10000, &chars("abcdefghijkl"), 50000, 50000);
    assert_eq!(lines.len(), 1);
    assert_eq!(chars_to_string(&lines[0].0), "abcdefghijkl");
    assert_eq!(lines[0].1, 120000);
}

#[test]
fn wrap_loses_no_words() {
    let t = GlyphTable::new(1000);
    let lines = wrap_text(&t, 10000, &chars("one two three four five"), 40000, 90000);
    let mut joined = String::new();
    for (line, _) in &lines {
        if !joined.is_empty() {
            joined.push(' ');
        }
        joined.push_str(&chars_to_string(line));
    }
    assert_eq!(joined, "one two three four five");
}

#[test]
fn validate_args_rejects_multiple_files_with_one_target() {
    let args = Arguments {
        custom_css: None,
        watch: false,
        stdout: true,
        output_type: None,
        output_path: None,
        backend: BackendType::Inhouse,
        file_paths: vec![String::from("a.md"), String::from("b.md")],
        command: None,
    };
    assert_eq!(args.validate_args().unwrap_err(), ArgsError::ConflictingOutput);

    let args = Arguments {
        custom_css: None,
        watch: false,
        stdout: false,
        output_type: None,
        output_path: Some(String::from("out.pdf")),
        backend: BackendType::Chromium,
        file_paths: vec![String::from("a.md"), String::from("b.md")],
        command: None,
    };
    assert!(args.validate_args().is_err());
}

#[test]
fn validate_args_accepts_single_file_with_target() {
    let args = Arguments {
        custom_css: None,
        watch: false,
        stdout: true,
        output_type: None,
        output_path: Some(String::from("out.pdf")),
        backend: BackendType::Inhouse,
        file_paths: vec![String::from("a.md")],
        command: None,
    };
    let validated = args.validate_args().unwrap();
    assert_eq!(validated.file_paths.len(), 1);
}

#[test]
fn validate_args_accepts_multiple_files_without_target() {
    let args = Arguments {
        custom_css: None,
        watch: false,
        stdout: false,
        output_type: None,
        output_path: None,
        backend: BackendType::Inhouse,
        file_paths: vec![String::from("a.md"), String::from("b.md")],
        command: None,
    };
    assert!(args.validate_args().is_ok());
}

#[test]
fn table_cursor_moves() {
    let mut t = Table::new();
    assert_eq!(t.column_index, 0);
    assert_eq!(t.row_index, 0);
    assert!(matches!(t.position, TablePosition::Outside));
    t.next_cell();
    t.next_cell();
    assert_eq!(t.column_index, 2);
    t.next_row();
    assert_eq!(t.column_index, 0);
    assert_eq!(t.row_index, 1);
}

#[test]
fn table_cell_read_and_write() {
    let mut t = Table {
        columns: vec![vec![None, None]],
        column_index: 0,
        row_index: 1,
        position: TablePosition::Row,
    };
    assert!(t.get_current_cell().is_none());
    t.set_current_cell(Some(Vec::new()));
    assert!(t.get_current_cell().is_some());
}

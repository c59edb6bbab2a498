use flake_edit::ast::{Position, Span};
use flake_edit::err::EditError;
use flake_edit::text::{
    chars_eq, contains_chars, offset_to_position, position_to_offset, span_to_start_end_offsets,
    split_chars, subrange_chars, trim_chars,
};

fn chars(s: &str) -> Vec<char> {
    s.chars().collect()
}

fn text(v: &[char]) -> String {
    v.iter().collect()
}

#[test]
fn offset_of_first_character() {
    let buf = chars("hello\nworld\n");
    assert_eq!(position_to_offset(&buf, Position { line: 1, column: 1 }), Ok(0));
}

#[test]
fn offset_counts_lines_and_columns() {
    let buf = chars("hello\nworld\n");
    assert_eq!(position_to_offset(&buf, Position { line: 2, column: 1 }), Ok(6));
    assert_eq!(position_to_offset(&buf, Position { line: 2, column: 5 }), Ok(10));
    assert_eq!(position_to_offset(&buf, Position { line: 1, column: 6 }), Ok(5));
}

#[test]
fn offset_fails_past_end_of_buffer() {
    let buf = chars("ab\ncd");
    let r = position_to_offset(&buf, Position { line: 3, column: 1 });
    assert!(matches!(r, Err(EditError::PositionNotFound { line: 3, column: 1 })));
}

#[test]
fn offset_fails_for_column_past_line_end() {
    let buf = chars("ab\ncd\n");
    let r = position_to_offset(&buf, Position { line: 1, column: 9 });
    assert!(matches!(r, Err(EditError::PositionNotFound { .. })));
}

#[test]
fn offset_position_round_trip() {
    let buf = chars("{\n  x = 1;\n  yy = 2;\n}\n");
    for offset in 0..buf.len() {
        let pos = offset_to_position(&buf, offset);
        assert_eq!(position_to_offset(&buf, pos), Ok(offset));
    }
}

#[test]
fn span_resolves_both_endpoints() {
    let buf = chars("ab\ncd\n");
    let span = Span {
        start: Position { line: 1, column: 2 },
        end: Position { line: 2, column: 1 },
    };
    assert_eq!(span_to_start_end_offsets(&buf, span), Ok((1, 3)));
}

#[test]
fn chars_eq_decides_equality() {
    assert!(chars_eq(&chars("abc"), &chars("abc")));
    assert!(!chars_eq(&chars("abc"), &chars("abd")));
    assert!(!chars_eq(&chars("abc"), &chars("ab")));
    assert!(chars_eq(&chars(""), &chars("")));
}

#[test]
fn contains_finds_a_run() {
    assert!(contains_chars(&chars("see https://github.com/edolstra x"), &chars("github.com")));
    assert!(!contains_chars(&chars("nothing here"), &chars("github.com")));
    assert!(contains_chars(&chars("abc"), &chars("")));
    assert!(!contains_chars(&chars("ab"), &chars("abc")));
}

#[test]
fn split_keeps_empty_segments() {
    let parts = split_chars(&chars("a/bb/"), '/');
    let texts: Vec<String> = parts.iter().map(|p| text(p)).collect();
    assert_eq!(texts, vec!["a".to_string(), "bb".to_string(), "".to_string()]);
    let single = split_chars(&chars("plain"), '/');
    assert_eq!(single.len(), 1);
    assert_eq!(text(&single[0]), "plain");
}

#[test]
fn trim_strips_both_ends() {
    assert_eq!(text(&trim_chars(&chars("  padded\t\n"))), "padded");
    assert_eq!(text(&trim_chars(&chars("bare"))), "bare");
    assert_eq!(text(&trim_chars(&chars("   "))), "");
}

#[test]
fn subrange_copies_the_middle() {
    assert_eq!(text(&subrange_chars(&chars("abcdef"), 2, 5)), "cde");
}

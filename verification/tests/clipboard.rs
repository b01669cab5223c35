//! Cleaning up copied text.

use forgetty::ui::clipboard::{
    normalize_line_endings, smart_copy_text, strip_box_drawing, strip_trailing_whitespace,
};

#[test]
fn test_strip_box_drawing() {
    // U+2500 = ─, U+2502 = │, U+250C = ┌, U+2510 = ┐, U+2514 = └, U+2518 = ┘
    let input = "┌──────┐\n│ hello │\n└──────┘";
    let result = strip_box_drawing(input);
    assert_eq!(result, "\n hello \n");
}

#[test]
fn test_strip_box_drawing_no_box_chars() {
    let input = "plain text";
    assert_eq!(strip_box_drawing(input), "plain text");
}

#[test]
fn test_strip_box_drawing_empty() {
    assert_eq!(strip_box_drawing(""), "");
}

#[test]
fn test_strip_trailing_whitespace() {
    let input = "hello   \nworld  \n  foo  ";
    let result = strip_trailing_whitespace(input);
    assert_eq!(result, "hello\nworld\n  foo");
}

#[test]
fn test_strip_trailing_whitespace_no_trailing() {
    let input = "hello\nworld";
    assert_eq!(strip_trailing_whitespace(input), "hello\nworld");
}

#[test]
fn test_strip_trailing_whitespace_empty() {
    assert_eq!(strip_trailing_whitespace(""), "");
}

#[test]
fn test_normalize_line_endings_crlf() {
    let input = "hello\r\nworld\r\n";
    assert_eq!(normalize_line_endings(input), "hello\nworld\n");
}

#[test]
fn test_normalize_line_endings_cr() {
    let input = "hello\rworld\r";
    assert_eq!(normalize_line_endings(input), "hello\nworld\n");
}

#[test]
fn test_normalize_line_endings_already_lf() {
    let input = "hello\nworld\n";
    assert_eq!(normalize_line_endings(input), "hello\nworld\n");
}

#[test]
fn test_normalize_line_endings_mixed() {
    let input = "a\r\nb\rc\n";
    assert_eq!(normalize_line_endings(input), "a\nb\nc\n");
}

#[test]
fn test_smart_pipeline() {
    // Box drawing, trailing blanks and CRLF. Lines are counted as
    // `str::lines` does, so the last line end goes.
    let input = "│ hello  \r\n│ world  \r\n";
    let result = normalize_line_endings(&strip_trailing_whitespace(&strip_box_drawing(input)));
    assert_eq!(result, " hello\n world");
}

#[test]
fn the_pipeline_is_one_function() {
    assert_eq!(smart_copy_text("│ hello  \r\n│ world  \r\n"), " hello\n world");
    assert_eq!(smart_copy_text(""), "");
    assert_eq!(smart_copy_text("a\rb"), "a\nb");
}

#[test]
fn the_box_drawing_block_has_ends() {
    assert_eq!(strip_box_drawing("\u{24ff}\u{2500}\u{257f}\u{2580}"), "\u{24ff}\u{2580}");
}

#[test]
fn blanks_of_other_alphabets_are_stripped() {
    // An ideographic space and a no-break space at the end of lines.
    assert_eq!(strip_trailing_whitespace("a\u{3000}\nb\u{a0}"), "a\nb");
    // A zero width space is no white space.
    assert_eq!(strip_trailing_whitespace("a\u{200b}"), "a\u{200b}");
}

#[test]
fn empty_lines_stay() {
    assert_eq!(strip_trailing_whitespace("a\n\n \nb"), "a\n\n\nb");
}

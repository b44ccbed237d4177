use mnemonic_validator::source::{count_lines, split_lines};
use mnemonic_validator::text::trim_line;

#[test]
fn split_on_line_feeds() {
    assert_eq!(split_lines("a\nb\nc"), vec!["a", "b", "c"]);
    assert_eq!(split_lines("a\nb\nc\n"), vec!["a", "b", "c"]);
    assert_eq!(split_lines("one line"), vec!["one line"]);
}

#[test]
fn split_strips_carriage_returns_before_the_separator() {
    assert_eq!(split_lines("a\r\nb\r\n"), vec!["a", "b"]);
    assert_eq!(split_lines("a\r\nb"), vec!["a", "b"]);
    // A carriage return not followed by a line feed stays in the line.
    assert_eq!(split_lines("a\rb\n"), vec!["a\rb"]);
    assert_eq!(split_lines("a\r"), vec!["a\r"]);
}

#[test]
fn split_keeps_empty_lines_between_separators() {
    assert_eq!(split_lines("a\n\nb"), vec!["a", "", "b"]);
    assert_eq!(split_lines("\n"), vec![""]);
    assert_eq!(split_lines("\n\n"), vec!["", ""]);
}

#[test]
fn split_of_empty_text_is_empty() {
    assert_eq!(split_lines(""), Vec::<String>::new());
    assert_eq!(count_lines(""), 0);
}

#[test]
fn counting_matches_splitting() {
    assert_eq!(count_lines("a\nb\nc"), 3);
    assert_eq!(count_lines("a\nb\nc\n"), 3);
    assert_eq!(count_lines("\n\n\n"), 3);
    assert_eq!(count_lines("x"), 1);
}

#[test]
fn trim_removes_white_space_at_both_ends() {
    assert_eq!(trim_line("  hello  "), "hello");
    assert_eq!(trim_line("\t abandon about \r"), "abandon about");
    assert_eq!(trim_line("inner  space kept"), "inner  space kept");
    assert_eq!(trim_line(""), "");
    assert_eq!(trim_line("   \t\r\n "), "");
    assert_eq!(trim_line("no trim"), "no trim");
    // Non-breaking and ideographic spaces trim as well.
    assert_eq!(trim_line("\u{A0}\u{3000}word\u{2009}"), "word");
}

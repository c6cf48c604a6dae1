use edicode::buffer::Row;
use edicode::file_type::FileType;
use edicode::highlighting::HighlightType;

fn numbers_row(text: &str) -> Row {
    let mut row = Row::from_text(text);
    row.highlight(FileType::Rust.into_options());
    row
}

#[test]
fn insert_then_delete_restores_row() {
    for p in 0..=5usize {
        let mut row = Row::from_text("hello");
        row.insert(p, 'Z');
        row.delete(p);
        assert_eq!(row.as_string(), "hello");
    }
}

#[test]
fn insert_past_end_appends() {
    let mut row = Row::from_text("ab");
    row.insert(10, 'c');
    assert_eq!(row.as_string(), "abc");
    row.insert(0, '>');
    assert_eq!(row.as_string(), ">abc");
}

#[test]
fn delete_past_end_is_noop() {
    let mut row = Row::from_text("ab");
    row.delete(2);
    assert_eq!(row.as_string(), "ab");
    row.delete(0);
    assert_eq!(row.as_string(), "b");
}

#[test]
fn rows_count_characters_not_bytes() {
    let mut row = Row::from_text("héllo");
    assert_eq!(row.len(), 5);
    row.delete(1);
    assert_eq!(row.as_string(), "hllo");
    assert!(!row.is_empty());
    assert!(Row::from_text("").is_empty());
}

#[test]
fn digits_then_letter_scenario() {
    let row = numbers_row("12a");
    assert_eq!(
        row.highlighting(),
        &vec![HighlightType::Number, HighlightType::Number, HighlightType::Plain]
    );
}

#[test]
fn numbers_need_a_separator_before_them() {
    let row = numbers_row("x1 2.5 a3 1.2.3");
    let (n, p) = (HighlightType::Number, HighlightType::Plain);
    assert_eq!(
        row.highlighting(),
        &vec![p, p, p, n, n, n, p, p, p, p, n, n, n, n, n]
    );
}

#[test]
fn plain_text_highlights_nothing() {
    let mut row = Row::from_text("42");
    row.highlight(FileType::PlainText.into_options());
    assert_eq!(row.highlighting(), &vec![HighlightType::Plain, HighlightType::Plain]);
}

#[test]
fn highlighting_twice_gives_same_categories() {
    let mut row = numbers_row("a 1.5, (7)");
    let first = row.highlighting().clone();
    row.highlight(FileType::Rust.into_options());
    assert_eq!(row.highlighting(), &first);
    assert_eq!(first.len(), row.len());
}

#[test]
fn render_colors_each_run() {
    let row = numbers_row("12a");
    assert_eq!(
        row.render(0, 10),
        "\u{1b}[38;2;220;163;163m12\u{1b}[38;2;255;255;255ma\u{1b}[39m"
    );
}

#[test]
fn render_clamps_range() {
    let row = numbers_row("abc");
    assert_eq!(row.render(5, 2), "\u{1b}[39m");
    assert_eq!(row.render(1, 2), "b\u{1b}[39m");
}

#[test]
fn render_uses_categories_of_visible_slice() {
    let row = numbers_row("a 12");
    assert_eq!(row.render(3, 4), "\u{1b}[38;2;220;163;163m2\u{1b}[39m");
}

#[test]
fn row_bytes_are_utf8() {
    let row = Row::from_text("é!");
    assert_eq!(row.as_bytes(), vec![0xc3, 0xa9, b'!']);
}

#[test]
fn split_off_and_append() {
    let mut row = Row::from_text("hello");
    let rest = row.split_off(2);
    assert_eq!(row.as_string(), "he");
    assert_eq!(rest.as_string(), "llo");
    row.append(&rest);
    assert_eq!(row.as_string(), "hello");
}

use edicode::buffer::Buffer;
use edicode::cursor::Position;
use edicode::file_type::FileType;
use edicode::highlighting::HighlightType;

fn lines(b: &Buffer) -> Vec<String> {
    (0..b.len()).map(|i| b.row(i).unwrap().as_string()).collect()
}

fn at(x: usize, y: usize) -> Position {
    Position { x, y }
}

#[test]
fn contents_split_into_rows() {
    let b = Buffer::from_contents("t.rs", "let x = 42;\nfoo\r\n\nbar");
    assert_eq!(lines(&b), vec!["let x = 42;", "foo", "", "bar"]);
    assert_eq!(b.file_type(), FileType::Rust);
    assert_eq!(b.save_location(), Some("t.rs".to_string()));
    assert!(!b.is_dirty());
    let hl = b.row(0).unwrap().highlighting();
    assert_eq!(hl[8], HighlightType::Number);
    assert_eq!(hl[9], HighlightType::Number);
    assert_eq!(hl[10], HighlightType::Plain);
}

#[test]
fn final_newline_adds_no_row() {
    assert_eq!(lines(&Buffer::from_contents("a.txt", "a\nb\n")), vec!["a", "b"]);
    assert_eq!(lines(&Buffer::from_contents("a.txt", "a\n\n")), vec!["a", ""]);
    assert!(Buffer::from_contents("a.txt", "").is_empty());
    assert_eq!(lines(&Buffer::from_contents("a.txt", "x\r")), vec!["x\r"]);
}

#[test]
fn saved_bytes_end_every_row_with_newline() {
    let b = Buffer::from_contents("a.txt", "é\nb");
    assert_eq!(b.to_bytes(), vec![0xc3, 0xa9, b'\n', b'b', b'\n']);
    assert_eq!(Buffer::new().to_bytes(), Vec::<u8>::new());
}

#[test]
fn typing_past_end_appends_row() {
    let mut b = Buffer::from_contents("a.txt", "one\ntwo");
    let n = b.len();
    b.insert('x', &at(0, n));
    assert_eq!(b.len(), n + 1);
    assert_eq!(b.row(n).unwrap().as_string(), "x");
    assert!(b.is_dirty());
}

#[test]
fn typing_into_empty_scratch_buffer() {
    let mut b = Buffer::new();
    assert!(b.is_empty());
    b.insert('x', &at(0, 0));
    assert_eq!(lines(&b), vec!["x"]);
}

#[test]
fn typing_far_past_end_does_nothing() {
    let mut b = Buffer::from_contents("a.txt", "one");
    b.insert('x', &at(0, 5));
    assert_eq!(lines(&b), vec!["one"]);
    assert!(!b.is_dirty());
}

#[test]
fn typing_inside_row() {
    let mut b = Buffer::from_contents("a.txt", "ac");
    b.insert('b', &at(1, 0));
    assert_eq!(lines(&b), vec!["abc"]);
}

#[test]
fn newline_splits_row() {
    let mut b = Buffer::from_contents("a.txt", "abc");
    b.insert('\n', &at(1, 0));
    assert_eq!(lines(&b), vec!["a", "bc"]);
    assert!(b.is_dirty());
}

#[test]
fn newline_at_end_of_row_adds_empty_row() {
    let mut b = Buffer::from_contents("a.txt", "abc\nz");
    b.insert_newline(&at(3, 0));
    assert_eq!(lines(&b), vec!["abc", "", "z"]);
    b.insert_newline(&at(0, 3));
    assert_eq!(lines(&b), vec!["abc", "", "z", ""]);
}

#[test]
fn split_then_join_restores_row() {
    for x in 0..=4usize {
        let mut b = Buffer::from_contents("a.txt", "top\nabcd\nend");
        b.insert_newline(&at(x, 1));
        assert_eq!(b.len(), 4);
        b.delete(&at(0, 2), true);
        assert_eq!(lines(&b), vec!["top", "abcd", "end"]);
    }
}

#[test]
fn forward_delete_removes_character_under_cursor() {
    let mut b = Buffer::from_contents("a.txt", "abc");
    b.delete(&at(1, 0), false);
    assert_eq!(lines(&b), vec!["ac"]);
    assert!(b.is_dirty());
}

#[test]
fn forward_delete_at_row_end_changes_nothing() {
    let mut b = Buffer::from_contents("a.txt", "abc\nd");
    b.delete(&at(3, 0), false);
    assert_eq!(lines(&b), vec!["abc", "d"]);
    assert!(!b.is_dirty());
}

#[test]
fn backspace_removes_character_before_cursor() {
    let mut b = Buffer::from_contents("a.txt", "abc");
    b.delete(&at(2, 0), true);
    assert_eq!(lines(&b), vec!["ac"]);
}

#[test]
fn backspace_at_row_start_joins_rows() {
    let mut b = Buffer::from_contents("a.rs", "ab 1\n2 cd");
    b.delete(&at(0, 1), true);
    assert_eq!(lines(&b), vec!["ab 12 cd"]);
    assert!(b.is_dirty());
    let hl = b.row(0).unwrap().highlighting();
    assert_eq!(hl.len(), 8);
    assert_eq!(hl[3], HighlightType::Number);
    assert_eq!(hl[4], HighlightType::Number);
}

#[test]
fn backspace_at_buffer_start_is_noop() {
    let mut b = Buffer::from_contents("a.txt", "abc");
    b.delete(&at(0, 0), true);
    assert_eq!(lines(&b), vec!["abc"]);
    assert!(!b.is_dirty());
}

#[test]
fn delete_past_last_row_is_noop() {
    let mut b = Buffer::from_contents("a.txt", "abc");
    b.delete(&at(0, 1), true);
    b.delete(&at(0, 7), false);
    assert_eq!(lines(&b), vec!["abc"]);
}

#[test]
fn edits_keep_highlighting_current() {
    let mut b = Buffer::from_contents("a.rs", "x 1");
    b.insert('2', &at(3, 0));
    assert_eq!(
        b.row(0).unwrap().highlighting(),
        &vec![
            HighlightType::Plain,
            HighlightType::Plain,
            HighlightType::Number,
            HighlightType::Number
        ]
    );
    b.insert_newline(&at(2, 0));
    assert_eq!(b.row(1).unwrap().highlighting(), &vec![HighlightType::Number; 2]);
}

#[test]
fn save_location_and_clean_state() {
    let mut b = Buffer::new();
    assert_eq!(b.save_location(), None);
    b.insert('a', &at(0, 0));
    b.set_save_location("out.txt".to_string());
    assert_eq!(b.save_location(), Some("out.txt".to_string()));
    assert!(b.is_dirty());
    b.mark_saved();
    assert!(!b.is_dirty());
}

#[test]
fn row_mut_edits_in_place() {
    let mut b = Buffer::from_contents("a.txt", "ab\ncd");
    b.row_mut(1).unwrap().insert(0, 'x');
    assert_eq!(lines(&b), vec!["ab", "xcd"]);
    assert!(b.row_mut(2).is_none());
    assert!(b.row(2).is_none());
}

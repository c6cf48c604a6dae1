use edicode::cursor::Position;
use edicode::file::{File, Row};

fn lines(f: &File) -> Vec<String> {
    (0..f.len()).map(|i| f.row(i).unwrap().as_string()).collect()
}

#[test]
fn file_from_contents() {
    let f = File::from_contents("n.txt", "ab\r\ncd\n");
    assert_eq!(lines(&f), vec!["ab", "cd"]);
    assert_eq!(f.name(), Some("n.txt".to_string()));
    assert!(File::default().is_empty());
    assert_eq!(f.to_bytes(), b"ab\ncd\n".to_vec());
}

#[test]
fn file_insert_and_newline() {
    let mut f = File::new();
    f.insert('a', &Position { x: 0, y: 0 });
    f.insert('c', &Position { x: 1, y: 0 });
    f.insert('b', &Position { x: 1, y: 0 });
    f.insert('\n', &Position { x: 1, y: 0 });
    assert_eq!(lines(&f), vec!["a", "bc"]);
    f.insert_newline(&Position { x: 0, y: 9 });
    assert_eq!(lines(&f), vec!["a", "bc", ""]);
    f.insert('z', &Position { x: 0, y: 7 });
    assert_eq!(f.len(), 3);
}

#[test]
fn file_delete_rules() {
    let mut f = File::from_contents("n.txt", "abc\nde");
    f.delete(&Position { x: 1, y: 0 });
    assert_eq!(lines(&f), vec!["ac", "de"]);
    f.delete(&Position { x: 0, y: 0 });
    assert_eq!(lines(&f), vec!["ac", "de"]);
    f.delete(&Position { x: 0, y: 1 });
    assert_eq!(lines(&f), vec!["acde"]);
}

#[test]
fn file_row_operations() {
    let mut row = Row::from_text("hello");
    row.delete(0);
    assert_eq!(row.as_string(), "hello");
    row.delete(4);
    assert_eq!(row.as_string(), "hell");
    row.insert(99, '!');
    assert_eq!(row.as_string(), "hell!");
    assert_eq!(row.render(1, 3), "el");
    assert_eq!(row.render(4, 1), "");
    assert_eq!(row.len(), 5);
    assert!(!row.is_empty());
    assert_eq!(row.as_bytes(), b"hell!".to_vec());
    let mut f = File::from_contents("n.txt", "x");
    f.row_mut(0).unwrap().insert(0, 'y');
    assert_eq!(lines(&f), vec!["yx"]);
    assert!(f.row_mut(1).is_none());
}

use edicode::buffer::Buffer;
use edicode::command::{parse_command, Command};
use edicode::cursor::{move_position, scroll_offset, Position};
use edicode::editor::{prompt_key, welcome_message, Editor, Mode, Request, ScreenLine};
use edicode::key::Key;
use edicode::message::MessageType;

fn editor_on(text: &str, width: u16, height: u16) -> Editor {
    Editor::new(Buffer::from_contents("notes.txt", text), width, height)
}

fn lines(e: &Editor) -> Vec<String> {
    let b = e.current_buffer();
    (0..b.len()).map(|i| b.row(i).unwrap().as_string()).collect()
}

fn keys(e: &mut Editor, ks: &[Key]) {
    for k in ks {
        e.process_key(*k);
    }
}

#[test]
fn typing_in_insert_mode() {
    let mut e = Editor::new(Buffer::new(), 80, 20);
    assert_eq!(e.mode(), Mode::Normal);
    keys(&mut e, &[Key::Char('i'), Key::Char('h'), Key::Char('i')]);
    assert_eq!(e.mode(), Mode::Insert);
    assert_eq!(lines(&e), vec!["hi"]);
    assert_eq!(e.cursor(), Position { x: 2, y: 0 });
    e.process_key(Key::Char('\n'));
    assert_eq!(lines(&e), vec!["hi", ""]);
    assert_eq!(e.cursor(), Position { x: 0, y: 1 });
    e.process_key(Key::Backspace);
    assert_eq!(lines(&e), vec!["hi"]);
    assert_eq!(e.cursor(), Position { x: 2, y: 0 });
    e.process_key(Key::Esc);
    assert_eq!(e.mode(), Mode::Normal);
}

#[test]
fn backspace_at_origin_is_noop() {
    let mut e = editor_on("abc", 80, 20);
    e.process_key(Key::Char('i'));
    e.process_key(Key::Backspace);
    assert_eq!(e.cursor(), Position { x: 0, y: 0 });
    assert_eq!(lines(&e), vec!["abc"]);
    assert!(!e.current_buffer().is_dirty());
}

#[test]
fn backspace_inside_row_moves_left() {
    let mut e = editor_on("abc", 80, 20);
    keys(&mut e, &[Key::Right, Key::Right, Key::Char('i'), Key::Backspace]);
    assert_eq!(lines(&e), vec!["ac"]);
    assert_eq!(e.cursor(), Position { x: 1, y: 0 });
}

#[test]
fn backspace_at_row_start_goes_to_end_of_previous_row() {
    let mut e = editor_on("ab\ncd", 80, 20);
    keys(&mut e, &[Key::Down, Key::Char('i'), Key::Backspace]);
    assert_eq!(lines(&e), vec!["abcd"]);
    assert_eq!(e.cursor(), Position { x: 2, y: 0 });
}

#[test]
fn normal_mode_keys() {
    let mut e = editor_on("abc", 80, 20);
    assert!(e.process_key(Key::Char(':')));
    assert!(!e.process_key(Key::Char('l')));
    assert_eq!(e.cursor(), Position { x: 1, y: 0 });
    e.process_key(Key::Char('d'));
    assert_eq!(lines(&e), vec!["ac"]);
    e.process_key(Key::Char('x'));
    assert_eq!(lines(&e), vec!["ac"]);
    e.process_key(Key::Char('i'));
    assert!(!e.process_key(Key::Char(':')));
    assert_eq!(lines(&e), vec!["a:c"]);
}

#[test]
fn movement_wraps_and_clamps() {
    let mut e = editor_on("abc\nd", 80, 20);
    keys(&mut e, &[Key::Right, Key::Right, Key::Right]);
    assert_eq!(e.cursor(), Position { x: 3, y: 0 });
    e.process_key(Key::Right);
    assert_eq!(e.cursor(), Position { x: 0, y: 1 });
    e.process_key(Key::Left);
    assert_eq!(e.cursor(), Position { x: 3, y: 0 });
    e.process_key(Key::Down);
    assert_eq!(e.cursor(), Position { x: 1, y: 1 });
    e.process_key(Key::Down);
    assert_eq!(e.cursor(), Position { x: 0, y: 2 });
    e.process_key(Key::Down);
    assert_eq!(e.cursor(), Position { x: 0, y: 2 });
    keys(&mut e, &[Key::Char('k'), Key::Char('k'), Key::Char('k'), Key::Up]);
    assert_eq!(e.cursor(), Position { x: 0, y: 0 });
}

#[test]
fn move_position_on_buffer() {
    let b = Buffer::from_contents("a.txt", "long line\nab");
    let p = move_position(Position { x: 9, y: 0 }, Key::Down, &b);
    assert_eq!(p, Position { x: 2, y: 1 });
    let q = move_position(Position { x: 0, y: 0 }, Key::Char('h'), &b);
    assert_eq!(q, Position { x: 0, y: 0 });
}

#[test]
fn scrolling_follows_cursor() {
    let mut e = editor_on("1\n2\n3\n4\n5", 80, 2);
    for _ in 0..4 {
        e.process_key(Key::Down);
        let (c, o) = (e.cursor(), e.offset());
        assert!(o.y <= c.y && c.y < o.y + 2);
        assert!(o.x <= c.x && c.x < o.x + 80);
    }
    assert_eq!(e.offset(), Position { x: 0, y: 3 });
    keys(&mut e, &[Key::Up, Key::Up]);
    assert_eq!(e.offset(), Position { x: 0, y: 2 });
    e.scroll();
    assert_eq!(e.offset(), Position { x: 0, y: 2 });
}

#[test]
fn scroll_offset_moves_least() {
    assert_eq!(scroll_offset(5, 0, 3), 3);
    assert_eq!(scroll_offset(1, 4, 3), 1);
    assert_eq!(scroll_offset(5, 4, 3), 4);
    assert_eq!(scroll_offset(9, scroll_offset(9, 0, 4), 4), 6);
}

#[test]
fn horizontal_scroll() {
    let mut e = editor_on("abcdefgh", 3, 5);
    keys(&mut e, &[Key::Right, Key::Right, Key::Right, Key::Right]);
    assert_eq!(e.offset(), Position { x: 2, y: 0 });
}

#[test]
fn close_last_buffers_leaves_scratch() {
    let mut e = editor_on("text", 80, 20);
    assert!(matches!(e.process_command("n"), Request::Nothing));
    assert_eq!(e.buffer_count(), 2);
    e.process_command("bc");
    assert_eq!(e.buffer_count(), 1);
    e.process_command("bc");
    assert_eq!(e.buffer_count(), 1);
    assert_eq!(e.current_index(), 0);
    assert!(e.current_buffer().is_empty());
    assert_eq!(e.current_buffer().save_location(), None);
    assert_eq!(e.cursor(), Position { x: 0, y: 0 });
}

#[test]
fn buffer_cycling() {
    let mut e = editor_on("one", 80, 20);
    e.process_command("new");
    e.process_command("n");
    assert_eq!(e.buffer_count(), 3);
    assert_eq!(e.current_index(), 2);
    e.process_command("bn");
    assert_eq!(e.current_index(), 0);
    e.process_command("bp");
    assert_eq!(e.current_index(), 2);
    e.process_command("buffer-previous");
    assert_eq!(e.current_index(), 1);
    e.process_command("buffer-close");
    assert_eq!(e.current_index(), 1);
    assert_eq!(e.buffer_count(), 2);
    e.process_command("bc");
    assert_eq!(e.current_index(), 0);
    assert_eq!(lines(&e), vec!["one"]);
}

#[test]
fn added_buffer_becomes_current() {
    let mut e = editor_on("one", 80, 20);
    e.process_command("n");
    e.process_command("n");
    e.process_command("bn");
    assert_eq!(e.current_index(), 0);
    e.add_buffer(Buffer::from_contents("b.rs", "fn"));
    assert_eq!(e.current_index(), 3);
    assert_eq!(lines(&e), vec!["fn"]);
}

#[test]
fn open_needs_a_path() {
    let mut e = editor_on("one", 80, 20);
    assert!(matches!(e.process_command("o"), Request::Nothing));
    assert_eq!(e.message().kind, MessageType::Error);
    assert_eq!(e.message().message, "File path not given!");
    match e.process_command("open other.rs") {
        Request::Open(p) => assert_eq!(p, "other.rs"),
        r => panic!("unexpected {:?}", r),
    }
}

#[test]
fn save_without_path_is_an_error() {
    let mut e = Editor::new(Buffer::new(), 80, 20);
    assert!(matches!(e.process_command("w"), Request::Nothing));
    assert_eq!(e.message().kind, MessageType::Error);
    assert_eq!(e.message().message, "Can't save with no path set!");
}

#[test]
fn save_with_path_sets_location() {
    let mut e = Editor::new(Buffer::new(), 80, 20);
    keys(&mut e, &[Key::Char('i'), Key::Char('a')]);
    match e.process_command("w out.txt") {
        Request::Save(p) => assert_eq!(p, "out.txt"),
        r => panic!("unexpected {:?}", r),
    }
    assert_eq!(e.current_buffer().save_location(), Some("out.txt".to_string()));
    assert!(e.current_buffer().is_dirty());
    e.saved("out.txt");
    assert!(!e.current_buffer().is_dirty());
    assert_eq!(e.message().kind, MessageType::Normal);
    assert_eq!(e.message().message, "\"out.txt\" written");
    match e.process_command("write") {
        Request::Save(p) => assert_eq!(p, "out.txt"),
        r => panic!("unexpected {:?}", r),
    }
}

#[test]
fn quit_commands() {
    let mut e = editor_on("one", 80, 20);
    assert!(!e.should_quit());
    match e.process_command("wq") {
        Request::Save(p) => assert_eq!(p, "notes.txt"),
        r => panic!("unexpected {:?}", r),
    }
    assert!(e.should_quit());
    let mut f = editor_on("one", 80, 20);
    f.process_command("q");
    assert!(f.should_quit());
    let mut g = Editor::new(Buffer::new(), 80, 20);
    assert!(matches!(g.process_command("x"), Request::Nothing));
    assert!(g.should_quit());
    assert_eq!(g.message().message, "Can't save with no path set!");
}

#[test]
fn unknown_and_empty_commands() {
    let mut e = editor_on("one", 80, 20);
    e.process_command("zzz now");
    assert_eq!(e.message().kind, MessageType::Error);
    assert_eq!(e.message().message, "Unknown command: zzz");
    e.process_key(Key::Right);
    assert_eq!(e.message().message, "");
    assert!(matches!(e.process_command(""), Request::Nothing));
    assert_eq!(e.message().message, "");
    e.process_command("🍷🗿");
    assert_eq!(e.message().kind, MessageType::Normal);
    assert_eq!(e.message().message, "Thank you! What a nice gentleman you are 🍷🗿");
}

#[test]
fn command_words() {
    let w: Vec<char> = "write-quit".chars().collect();
    assert_eq!(parse_command(&w), Command::WriteQuit);
    assert_eq!(parse_command(&vec![]), Command::Empty);
    assert_eq!(parse_command(&vec!['b', 'n']), Command::BufferNext);
    assert_eq!(parse_command(&vec!['w', 'x']), Command::Unknown);
}

#[test]
fn prompt_editing() {
    let mut input: Vec<char> = vec![];
    assert!(!prompt_key(&mut input, Key::Char('w')));
    assert!(!prompt_key(&mut input, Key::Char('\u{7}')));
    assert!(!prompt_key(&mut input, Key::Char('q')));
    assert_eq!(input, vec!['w', 'q']);
    assert!(!prompt_key(&mut input, Key::Backspace));
    assert_eq!(input, vec!['w']);
    assert!(!prompt_key(&mut input, Key::Up));
    assert!(prompt_key(&mut input, Key::Char('\n')));
    assert_eq!(input, vec!['w']);
    assert!(prompt_key(&mut input, Key::Esc));
    assert!(input.is_empty());
    assert!(!prompt_key(&mut input, Key::Backspace));
}

#[test]
fn prompt_is_shown_in_status() {
    let mut e = editor_on("one", 80, 20);
    e.show_prompt(":", &vec!['w', ' ']);
    assert_eq!(e.message().message, ":w ");
}

#[test]
fn status_bar_layout() {
    let e = Editor::new(Buffer::new(), 40, 20);
    assert_eq!(e.status_bar(), " NORMAL   [scratch]    Plain Text   1:1 ");
    let mut f = Editor::new(Buffer::from_contents("a.rs", "x"), 30, 20);
    keys(&mut f, &[Key::Char('i'), Key::Char('y')]);
    assert_eq!(f.status_bar(), " INSERT   a.rs [+] Rust   1:2 ");
}

#[test]
fn welcome_banner() {
    assert_eq!(welcome_message("1.0", 40), format!("~{}Edicode -- version 1.0", " ".repeat(8)));
    assert_eq!(welcome_message("1.0", 10), "~Edicode -");
    assert_eq!(welcome_message("1.0", 0), "");
}

#[test]
fn screen_lines() {
    let e = Editor::new(Buffer::new(), 80, 9);
    assert!(matches!(e.screen_line(3), ScreenLine::Welcome));
    assert!(matches!(e.screen_line(0), ScreenLine::Filler));
    let f = editor_on("ab\ncd", 80, 9);
    match f.screen_line(1) {
        ScreenLine::Text(t) => assert_eq!(t, "cd\u{1b}[39m"),
        other => panic!("unexpected {:?}", other),
    }
    assert!(matches!(f.screen_line(2), ScreenLine::Filler));
    assert!(matches!(f.screen_line(3), ScreenLine::Filler));
}

#[test]
fn terminal_size_is_kept() {
    let e = editor_on("", 12, 7);
    assert_eq!(e.terminal_size(), (12, 7));
}

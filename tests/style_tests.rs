use edicode::file_type::FileType;
use edicode::highlighting::{HighlightType, HighlightingOptions};
use edicode::message::{Message, MessageType};
use edicode::terminal_utils::{bg_string, color_bg, color_fg, fg_string, Rgb, TermColor};

#[test]
fn highlight_colors() {
    assert_eq!(HighlightType::Number.to_color(), Rgb(220, 163, 163));
    assert_eq!(HighlightType::String.to_color(), Rgb(211, 54, 130));
    assert_eq!(HighlightType::Plain.to_color(), Rgb(255, 255, 255));
    assert_eq!(HighlightType::default(), HighlightType::Plain);
}

#[test]
fn foreground_sequences() {
    assert_eq!(fg_string(TermColor::Rgb(Rgb(0, 9, 100))), "\u{1b}[38;2;0;9;100m");
    assert_eq!(fg_string(TermColor::Reset), "\u{1b}[39m");
}

#[test]
fn background_sequences() {
    assert_eq!(bg_string(TermColor::Rgb(Rgb(52, 120, 198))), "\u{1b}[48;2;52;120;198m");
    assert_eq!(bg_string(TermColor::Reset), "\u{1b}[49m");
}

#[test]
fn colored_text() {
    assert_eq!(
        color_fg("hi", TermColor::Rgb(Rgb(255, 0, 0))),
        "\u{1b}[38;2;255;0;0mhi\u{1b}[39m"
    );
    assert_eq!(color_bg("hi", TermColor::Reset), "\u{1b}[49mhi\u{1b}[49m");
}

#[test]
fn messages_render_in_their_color() {
    let error = Message::new_error("oops".to_string());
    assert_eq!(error.kind, MessageType::Error);
    assert_eq!(error.render(), "\u{1b}[38;2;255;0;0moops\u{1b}[39m");
    let normal = Message::new_normal("ok".to_string());
    assert_eq!(normal.render(), "\u{1b}[39mok\u{1b}[39m");
    let plain = Message::new(MessageType::Normal, "x".to_string());
    assert_eq!(plain.message, "x");
    let empty = Message::default();
    assert_eq!(empty.kind, MessageType::Normal);
    assert_eq!(empty.message, "");
}

#[test]
fn file_types_from_extension() {
    assert_eq!(FileType::from_path("main.rs"), FileType::Rust);
    assert_eq!(FileType::from_path("dir/a.go"), FileType::Golang);
    assert_eq!(FileType::from_path("x.js"), FileType::Javascript);
    assert_eq!(FileType::from_path("y.ts"), FileType::Typescript);
    assert_eq!(FileType::from_path("README"), FileType::PlainText);
    assert_eq!(FileType::from_path("archive.tar.gz"), FileType::PlainText);
    assert_eq!(FileType::from_path("file."), FileType::PlainText);
    assert_eq!(FileType::from_path(""), FileType::PlainText);
    assert_eq!(FileType::from("lib.rs"), FileType::Rust);
    assert_eq!(FileType::default(), FileType::PlainText);
}

#[test]
fn file_type_names() {
    assert_eq!(FileType::PlainText.name(), "Plain Text");
    assert_eq!(FileType::Golang.name(), "Go");
    assert_eq!(FileType::Rust.name(), "Rust");
}

#[test]
fn highlighting_options_by_type() {
    let rust: HighlightingOptions = FileType::Rust.into_options();
    assert!(rust.highlight_numbers());
    assert!(rust.highlight_strings());
    assert!(rust.is_string_delimiter('"'));
    assert!(rust.is_string_delimiter('\''));
    assert!(!rust.is_string_delimiter('a'));
    let plain = FileType::PlainText.into_options();
    assert!(!plain.highlight_numbers());
    assert!(!plain.highlight_strings());
    assert!(!plain.is_string_delimiter('"'));
}

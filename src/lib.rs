pub mod buffer;
pub mod command;
pub mod cursor;
pub mod editor;
pub mod file;
pub mod file_type;
pub mod highlighting;
pub mod key;
pub mod message;
pub mod terminal_utils;
pub mod text;

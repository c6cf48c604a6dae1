use vstd::prelude::*;
use crate::text::same_chars;

verus! {

/// The commands of the command line, told apart by its first word.
#[derive(Clone, Copy, Debug, PartialEq, Eq, Structural)]
pub enum Command {
    Write,
    Quit,
    WriteQuit,
    New,
    Open,
    BufferNext,
    BufferPrevious,
    BufferClose,
    Thanks,
    Empty,
    Unknown,
}

pub open spec fn command_of(name: Seq<char>) -> Command {
    if name == "w"@ || name == "write"@ {
        Command::Write
    } else if name == "q"@ || name == "quit"@ {
        Command::Quit
    } else if name == "wq"@ || name == "write-quit"@ || name == "x"@ {
        Command::WriteQuit
    } else if name == "n"@ || name == "new"@ {
        Command::New
    } else if name == "o"@ || name == "open"@ {
        Command::Open
    } else if name == "bn"@ || name == "buffer-next"@ {
        Command::BufferNext
    } else if name == "bp"@ || name == "buffer-previous"@ {
        Command::BufferPrevious
    } else if name == "bc"@ || name == "buffer-close"@ {
        Command::BufferClose
    } else if name == "\u{1f377}\u{1f5ff}"@ {
        Command::Thanks
    } else if name.len() == 0 {
        Command::Empty
    } else {
        Command::Unknown
    }
}

/// The command that the word `name` names.
pub fn parse_command(name: &Vec<char>) -> (r: Command)
    ensures
        r == command_of(name@),
{
    if same_chars(name, "w") || same_chars(name, "write") {
        Command::Write
    } else if same_chars(name, "q") || same_chars(name, "quit") {
        Command::Quit
    } else if same_chars(name, "wq") || same_chars(name, "write-quit") || same_chars(name, "x") {
        Command::WriteQuit
    } else if same_chars(name, "n") || same_chars(name, "new") {
        Command::New
    } else if same_chars(name, "o") || same_chars(name, "open") {
        Command::Open
    } else if same_chars(name, "bn") || same_chars(name, "buffer-next") {
        Command::BufferNext
    } else if same_chars(name, "bp") || same_chars(name, "buffer-previous") {
        Command::BufferPrevious
    } else if same_chars(name, "bc") || same_chars(name, "buffer-close") {
        Command::BufferClose
    } else if same_chars(name, "\u{1f377}\u{1f5ff}") {
        Command::Thanks
    } else if name.len() == 0 {
        Command::Empty
    } else {
        Command::Unknown
    }
}

} // verus!

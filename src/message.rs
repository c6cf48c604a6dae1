use vstd::prelude::*;
use crate::terminal_utils::{color_fg, fg_sequence, reset_sequence, Rgb, TermColor};

verus! {

/// Whether a status message reports something ordinary or an error.
#[derive(Clone, Copy, Debug, PartialEq, Eq, Structural)]
pub enum MessageType {
    Normal,
    Error,
}

/// A line of text for the status bar.
#[derive(Clone, Debug)]
pub struct Message {
    pub kind: MessageType,
    pub message: String,
}

/// The color a message of kind `k` is shown in: the default, or red for an error.
pub open spec fn message_color(k: MessageType) -> TermColor {
    match k {
        MessageType::Normal => TermColor::Reset,
        MessageType::Error => TermColor::Rgb(Rgb(255, 0, 0)),
    }
}

impl Message {
    pub fn new(kind: MessageType, message: String) -> (r: Message)
        ensures
            r.kind == kind,
            r.message == message,
    {
        Message { kind, message }
    }

    pub fn new_normal(message: String) -> (r: Message)
        ensures
            r.kind == MessageType::Normal,
            r.message == message,
    {
        Message { kind: MessageType::Normal, message }
    }

    pub fn new_error(message: String) -> (r: Message)
        ensures
            r.kind == MessageType::Error,
            r.message == message,
    {
        Message { kind: MessageType::Error, message }
    }

    /// The message as the terminal shows it: in its color, then a reset.
    pub fn render(&self) -> (r: String)
        ensures
            r@ == fg_sequence(message_color(self.kind)) + self.message@ + reset_sequence('3'),
    {
        match self.kind {
            MessageType::Normal => color_fg(self.message.as_str(), TermColor::Reset),
            MessageType::Error => color_fg(self.message.as_str(), TermColor::Rgb(Rgb(255, 0, 0))),
        }
    }
}

impl Default for Message {
    fn default() -> (r: Message)
        ensures
            r.kind == MessageType::Normal,
            r.message@ == Seq::<char>::empty(),
    {
        Message { kind: MessageType::Normal, message: String::new() }
    }
}

} // verus!

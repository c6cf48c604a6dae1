use vstd::prelude::*;

verus! {

/// A key press, as the editor tells them apart.
#[derive(Clone, Copy, Debug, PartialEq, Eq, Structural)]
pub enum Key {
    Char(char),
    Backspace,
    Esc,
    Up,
    Down,
    Left,
    Right,
    Other,
}

pub open spec fn is_up(k: Key) -> bool {
    k == Key::Up || k == Key::Char('k')
}

pub open spec fn is_down(k: Key) -> bool {
    k == Key::Down || k == Key::Char('j')
}

pub open spec fn is_left(k: Key) -> bool {
    k == Key::Left || k == Key::Char('h')
}

pub open spec fn is_right(k: Key) -> bool {
    k == Key::Right || k == Key::Char('l')
}

pub open spec fn is_movement(k: Key) -> bool {
    is_up(k) || is_down(k) || is_left(k) || is_right(k)
}

pub open spec fn is_arrow(k: Key) -> bool {
    k == Key::Up || k == Key::Down || k == Key::Left || k == Key::Right
}

} // verus!

use vstd::prelude::*;

verus! {

/// A truecolor value: red, green and blue.
#[derive(Clone, Copy, Debug, PartialEq, Eq, Structural)]
pub struct Rgb(pub u8, pub u8, pub u8);

/// A color for the terminal: a truecolor, or the terminal's default.
#[derive(Clone, Copy, Debug, PartialEq, Eq, Structural)]
pub enum TermColor {
    Rgb(Rgb),
    Reset,
}

pub open spec fn digit_char(d: int) -> char {
    (d + 48) as char
}

/// The decimal notation of `n`, without leading zeros.
pub open spec fn decimal(b: u8) -> Seq<char> {
    let n = b as int;
    if n < 10 {
        seq![digit_char(n)]
    } else if n < 100 {
        seq![digit_char(n / 10), digit_char(n % 10)]
    } else {
        seq![digit_char(n / 100), digit_char((n / 10) % 10), digit_char(n % 10)]
    }
}

/// The control sequence introducer: escape, then `[`.
pub open spec fn csi() -> Seq<char> {
    seq!['\u{1b}', '[']
}

/// The sequence that selects `c` as foreground (`layer` 3) or background (`layer` 4) color.
pub open spec fn rgb_sequence(layer: char, c: Rgb) -> Seq<char> {
    csi() + seq![layer, '8', ';', '2', ';'] + decimal(c.0) + seq![';'] + decimal(c.1) + seq![';']
        + decimal(c.2) + seq!['m']
}

/// The sequence that restores the default foreground (`layer` 3) or background (`layer` 4).
pub open spec fn reset_sequence(layer: char) -> Seq<char> {
    csi() + seq![layer, '9', 'm']
}

pub open spec fn fg_sequence(c: TermColor) -> Seq<char> {
    match c {
        TermColor::Rgb(rgb) => rgb_sequence('3', rgb),
        TermColor::Reset => reset_sequence('3'),
    }
}

pub open spec fn bg_sequence(c: TermColor) -> Seq<char> {
    match c {
        TermColor::Rgb(rgb) => rgb_sequence('4', rgb),
        TermColor::Reset => reset_sequence('4'),
    }
}

/// Relies on termion's `Rgb::fg_string`: `ESC [ 38;2;r;g;b m`, each channel in decimal.
#[verifier::external_body]
fn rgb_fg_string(c: Rgb) -> (r: String)
    ensures
        r@ == rgb_sequence('3', c),
{
    termion::color::Rgb(c.0, c.1, c.2).fg_string()
}

/// Relies on termion's `Rgb::bg_string`: `ESC [ 48;2;r;g;b m`, each channel in decimal.
#[verifier::external_body]
fn rgb_bg_string(c: Rgb) -> (r: String)
    ensures
        r@ == rgb_sequence('4', c),
{
    termion::color::Rgb(c.0, c.1, c.2).bg_string()
}

/// Relies on termion's `Reset::fg_str`: `ESC [ 39m`.
#[verifier::external_body]
fn reset_fg_string() -> (r: String)
    ensures
        r@ == reset_sequence('3'),
{
    termion::color::Reset.fg_str().to_string()
}

/// Relies on termion's `Reset::bg_str`: `ESC [ 49m`.
#[verifier::external_body]
fn reset_bg_string() -> (r: String)
    ensures
        r@ == reset_sequence('4'),
{
    termion::color::Reset.bg_str().to_string()
}

/// The escape sequence that sets `color` as the foreground.
pub fn fg_string(color: TermColor) -> (r: String)
    ensures
        r@ == fg_sequence(color),
{
    match color {
        TermColor::Rgb(rgb) => rgb_fg_string(rgb),
        TermColor::Reset => reset_fg_string(),
    }
}

/// The escape sequence that sets `color` as the background.
pub fn bg_string(color: TermColor) -> (r: String)
    ensures
        r@ == bg_sequence(color),
{
    match color {
        TermColor::Rgb(rgb) => rgb_bg_string(rgb),
        TermColor::Reset => reset_bg_string(),
    }
}

/// `text` in the foreground `color`, followed by a foreground reset.
pub fn color_fg(text: &str, color: TermColor) -> (r: String)
    ensures
        r@ == fg_sequence(color) + text@ + reset_sequence('3'),
{
    let mut s = fg_string(color);
    s.append(text);
    let reset = reset_fg_string();
    s.append(reset.as_str());
    s
}

/// `text` on the background `color`, followed by a background reset.
pub fn color_bg(text: &str, color: TermColor) -> (r: String)
    ensures
        r@ == bg_sequence(color) + text@ + reset_sequence('4'),
{
    let mut s = bg_string(color);
    s.append(text);
    let reset = reset_bg_string();
    s.append(reset.as_str());
    s
}

} // verus!

use vstd::prelude::*;
use crate::terminal_utils::Rgb;
use crate::text::{
    is_digit,
    is_digit_spec,
    is_punctuation,
    is_punctuation_spec,
    is_whitespace,
    is_whitespace_spec,
};

verus! {

/// The category of one character, which decides its color.
#[derive(Clone, Copy, Debug, PartialEq, Eq, Structural)]
pub enum HighlightType {
    Number,
    String,
    Plain,
}

impl Default for HighlightType {
    fn default() -> (r: HighlightType)
        ensures
            r == HighlightType::Plain,
    {
        HighlightType::Plain
    }
}

pub open spec fn color_of(h: HighlightType) -> Rgb {
    match h {
        HighlightType::Number => Rgb(220, 163, 163),
        HighlightType::String => Rgb(211, 54, 130),
        HighlightType::Plain => Rgb(255, 255, 255),
    }
}

impl HighlightType {
    /// The color that characters of this category are drawn in.
    pub fn to_color(&self) -> (r: Rgb)
        ensures
            r == color_of(*self),
    {
        match self {
            HighlightType::Number => Rgb(220, 163, 163),
            HighlightType::String => Rgb(211, 54, 130),
            HighlightType::Plain => Rgb(255, 255, 255),
        }
    }
}

/// What the classifier looks for in a file of some type.
pub struct HighlightingOptions {
    pub highlight_numbers: bool,
    pub highlight_strings: Option<Vec<char>>,
}

impl HighlightingOptions {
    pub fn highlight_numbers(&self) -> (r: bool)
        ensures
            r == self.highlight_numbers,
    {
        self.highlight_numbers
    }

    /// Whether string delimiters are declared at all.
    pub fn highlight_strings(&self) -> (r: bool)
        ensures
            r == self.highlight_strings is Some,
    {
        self.highlight_strings.is_some()
    }

    /// Whether `c` is one of the declared string delimiters.
    pub fn is_string_delimiter(&self, c: char) -> (r: bool)
        ensures
            r == (self.highlight_strings is Some && self.highlight_strings->0@.contains(c)),
    {
        match &self.highlight_strings {
            Some(delimiters) => {
                let mut i: usize = 0;
                while i < delimiters.len()
                    invariant
                        i <= delimiters.len(),
                        self.highlight_strings is Some,
                        self.highlight_strings->0@ == delimiters@,
                        forall|j: int| 0 <= j < i ==> delimiters@[j] != c,
                    decreases delimiters.len() - i,
                {
                    if delimiters[i] == c {
                        assert(delimiters@[i as int] == c);
                        return true;
                    }
                    i = i + 1;
                }
                false
            },
            None => false,
        }
    }
}

/// Whether a character ends a word: ASCII punctuation or whitespace.
pub open spec fn is_separator(c: char) -> bool {
    is_punctuation_spec(c) || is_whitespace_spec(c)
}

/// The category of the last character of `s`, given the categories `prev` of the ones before it.
pub open spec fn next_category(s: Seq<char>, prev: Seq<HighlightType>, numbers: bool) -> HighlightType {
    let i = s.len() - 1;
    let c = s[i];
    let after_separator = i == 0 || is_separator(s[i - 1]);
    let after_number = i > 0 && prev[i - 1] == HighlightType::Number;
    if numbers && ((is_digit_spec(c) && (after_separator || after_number)) || (c == '.'
        && after_number)) {
        HighlightType::Number
    } else {
        HighlightType::Plain
    }
}

/// The categories of the characters of one row, in a single pass from the left: a digit after a
/// separator starts a number, and digits and dots continue it.
pub open spec fn highlights_of(s: Seq<char>, numbers: bool) -> Seq<HighlightType>
    decreases s.len(),
{
    if s.len() == 0 {
        seq![]
    } else {
        let prev = highlights_of(s.drop_last(), numbers);
        prev.push(next_category(s, prev, numbers))
    }
}

pub proof fn lemma_highlights_len(s: Seq<char>, numbers: bool)
    ensures
        highlights_of(s, numbers).len() == s.len(),
    decreases s.len(),
{
    if s.len() > 0 {
        lemma_highlights_len(s.drop_last(), numbers);
    }
}

/// Classifies the characters of `s` with the given options.
pub fn classify(s: &Vec<char>, options: &HighlightingOptions) -> (r: Vec<HighlightType>)
    ensures
        r@ == highlights_of(s@, options.highlight_numbers),
        r@.len() == s@.len(),
{
    let numbers = options.highlight_numbers();
    let mut out: Vec<HighlightType> = Vec::new();
    let mut previous_is_separator = true;
    let mut i: usize = 0;
    while i < s.len()
        invariant
            i <= s.len(),
            numbers == options.highlight_numbers,
            out@ == highlights_of(s@.subrange(0, i as int), numbers),
            out@.len() == i,
            previous_is_separator == (i == 0 || is_separator(s@[i - 1])),
        decreases s.len() - i,
    {
        let c = s[i];
        let previous_is_number = i > 0 && out[i - 1] == HighlightType::Number;
        let category = if numbers && ((is_digit(c) && (previous_is_separator || previous_is_number))
            || (c == '.' && previous_is_number)) {
            HighlightType::Number
        } else {
            HighlightType::Plain
        };
        proof {
            let t = s@.subrange(0, i + 1);
            assert(t.drop_last() =~= s@.subrange(0, i as int));
            assert(t[t.len() - 1] == c);
            if i > 0 {
                assert(t[i - 1] == s@[i - 1]);
            }
        }
        out.push(category);
        previous_is_separator = is_punctuation(c) || is_whitespace(c);
        i = i + 1;
    }
    assert(s@.subrange(0, s@.len() as int) =~= s@);
    out
}

/// Classifying is a function of the characters alone: running it again on unchanged characters
/// yields the same categories, one per character.
pub proof fn lemma_classify_idempotent(s: Seq<char>, numbers: bool, previous: Seq<HighlightType>)
    requires
        previous == highlights_of(s, numbers),
    ensures
        highlights_of(s, numbers) == previous,
        previous.len() == s.len(),
{
    lemma_highlights_len(s, numbers);
}

} // verus!

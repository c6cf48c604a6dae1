use vstd::prelude::*;
use crate::highlighting::HighlightingOptions;
use crate::text::chars_of;

verus! {

/// The languages the highlighter knows, told apart by a path's extension.
#[derive(Clone, Copy, Debug, PartialEq, Eq, Structural)]
pub enum FileType {
    PlainText,
    Rust,
    Golang,
    Javascript,
    Typescript,
}

/// The characters after the last `.` of `s`; all of `s` when it holds no `.`.
pub open spec fn extension(s: Seq<char>) -> Seq<char>
    decreases s.len(),
{
    if s.len() == 0 {
        s
    } else if s.last() == '.' {
        seq![]
    } else {
        extension(s.drop_last()).push(s.last())
    }
}

pub open spec fn file_type_of(path: Seq<char>) -> FileType {
    let e = extension(path);
    if e == seq!['r', 's'] {
        FileType::Rust
    } else if e == seq!['g', 'o'] {
        FileType::Golang
    } else if e == seq!['j', 's'] {
        FileType::Javascript
    } else if e == seq!['t', 's'] {
        FileType::Typescript
    } else {
        FileType::PlainText
    }
}

/// The name shown for a file type.
pub open spec fn display_name(t: FileType) -> Seq<char> {
    match t {
        FileType::PlainText => "Plain Text"@,
        FileType::Rust => "Rust"@,
        FileType::Golang => "Go"@,
        FileType::Javascript => "Javascript"@,
        FileType::Typescript => "Typescript"@,
    }
}

/// Whether files of type `t` get their numbers highlighted.
pub open spec fn highlights_numbers(t: FileType) -> bool {
    t != FileType::PlainText
}

proof fn lemma_extension_from(s: Seq<char>, i: int)
    requires
        0 <= i <= s.len(),
        i == 0 || s[i - 1] == '.',
        forall|j: int| i <= j < s.len() ==> s[j] != '.',
    ensures
        extension(s) == s.subrange(i, s.len() as int),
    decreases s.len(),
{
    if s.len() > i {
        let t = s.drop_last();
        lemma_extension_from(t, i);
        assert(s.subrange(i, s.len() as int) =~= t.subrange(i, t.len() as int).push(s.last()));
    } else if i > 0 {
        assert(s.subrange(i, s.len() as int) =~= seq![]);
    } else {
        assert(s.subrange(i, s.len() as int) =~= s);
    }
}

fn two_chars(v: &Vec<char>, start: usize, a: char, b: char) -> (r: bool)
    requires
        start <= v.len(),
    ensures
        r == (v@.subrange(start as int, v@.len() as int) == seq![a, b]),
{
    if v.len() - start != 2 {
        proof {
            let e = v@.subrange(start as int, v@.len() as int);
            assert(e.len() != seq![a, b].len());
        }
        return false;
    }
    let r = v[start] == a && v[start + 1] == b;
    proof {
        let e = v@.subrange(start as int, v@.len() as int);
        if r {
            assert(e =~= seq![a, b]);
        } else {
            assert(e[0] != seq![a, b][0] || e[1] != seq![a, b][1]);
        }
    }
    r
}

impl FileType {
    /// The type of a file at `path`, from its extension.
    pub fn from_path(path: &str) -> (r: FileType)
        ensures
            r == file_type_of(path@),
    {
        let v = chars_of(path);
        let mut i: usize = v.len();
        while i > 0 && v[i - 1] != '.'
            invariant
                i <= v.len(),
                forall|j: int| i <= j < v.len() ==> v@[j] != '.',
            decreases i,
        {
            i = i - 1;
        }
        proof {
            lemma_extension_from(v@, i as int);
        }
        if two_chars(&v, i, 'r', 's') {
            FileType::Rust
        } else if two_chars(&v, i, 'g', 'o') {
            FileType::Golang
        } else if two_chars(&v, i, 'j', 's') {
            FileType::Javascript
        } else if two_chars(&v, i, 't', 's') {
            FileType::Typescript
        } else {
            FileType::PlainText
        }
    }

    /// The classifier's options for this type: numbers and the quote delimiters for every
    /// language, nothing for plain text.
    pub fn into_options(self) -> (r: HighlightingOptions)
        ensures
            r.highlight_numbers == highlights_numbers(self),
            self == FileType::PlainText ==> r.highlight_strings is None,
            self != FileType::PlainText ==> (r.highlight_strings is Some
                && r.highlight_strings->0@ == seq!['\'', '"']),
    {
        match self {
            FileType::PlainText => HighlightingOptions {
                highlight_numbers: false,
                highlight_strings: None,
            },
            _ => HighlightingOptions {
                highlight_numbers: true,
                highlight_strings: Some(vec!['\'', '"']),
            },
        }
    }

    /// The name shown for this type.
    pub fn name(&self) -> (r: &'static str)
        ensures
            r@ == display_name(*self),
    {
        match self {
            FileType::PlainText => "Plain Text",
            FileType::Rust => "Rust",
            FileType::Golang => "Go",
            FileType::Javascript => "Javascript",
            FileType::Typescript => "Typescript",
        }
    }
}

impl Default for FileType {
    fn default() -> (r: FileType)
        ensures
            r == FileType::PlainText,
    {
        FileType::PlainText
    }
}

impl<'a> From<&'a str> for FileType {
    fn from(value: &'a str) -> (r: FileType) {
        FileType::from_path(value)
    }
}

impl<'a> vstd::std_specs::convert::FromSpecImpl<&'a str> for FileType {
    open spec fn obeys_from_spec() -> bool {
        true
    }

    open spec fn from_spec(v: &'a str) -> FileType {
        file_type_of(v@)
    }
}

impl From<String> for FileType {
    fn from(value: String) -> (r: FileType) {
        FileType::from_path(value.as_str())
    }
}

impl vstd::std_specs::convert::FromSpecImpl<String> for FileType {
    open spec fn obeys_from_spec() -> bool {
        true
    }

    open spec fn from_spec(v: String) -> FileType {
        file_type_of(v@)
    }
}

} // verus!

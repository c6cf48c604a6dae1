use vstd::prelude::*;
use vstd::string::StrSliceExecFns;
use crate::buffer::{after_newline, deleted, inserted, lines_of, min, stored_bytes};
use crate::cursor::Position;
use crate::text::{chars_of, split_on, string_of, strip_trailing_cr};

verus! {

/// A line of plain text, without its newline.
pub struct Row {
    string: Vec<char>,
}

impl View for Row {
    type V = Seq<char>;

    closed spec fn view(&self) -> Seq<char> {
        self.string@
    }
}

/// `s` without the character at `at`; unchanged at the start of the row and past its end.
pub open spec fn deleted_inside(s: Seq<char>, at: int) -> Seq<char> {
    if at == 0 {
        s
    } else {
        deleted(s, at)
    }
}

impl Row {
    /// A row holding the characters of `value`.
    pub fn from_text(value: &str) -> (r: Row)
        ensures
            r@ == value@,
    {
        Row { string: chars_of(value) }
    }

    /// The characters `start..end`, clamped to the row.
    pub fn render(&self, start: usize, end: usize) -> (r: String)
        ensures
            r@ == self@.subrange(
                min(start as int, min(end as int, self@.len() as int)),
                min(end as int, self@.len() as int),
            ),
    {
        let end = if end < self.string.len() {
            end
        } else {
            self.string.len()
        };
        let start = if start < end {
            start
        } else {
            end
        };
        let mut part: Vec<char> = Vec::new();
        let mut i: usize = start;
        while i < end
            invariant
                start <= i <= end <= self.string.len(),
                part@ == self@.subrange(start as int, i as int),
            decreases end - i,
        {
            part.push(self.string[i]);
            i = i + 1;
            assert(part@ =~= self@.subrange(start as int, i as int));
        }
        string_of(&part)
    }

    /// Puts `c` before position `at`; appends it when `at` is past the end.
    pub fn insert(&mut self, at: usize, c: char)
        ensures
            final(self)@ == inserted(old(self)@, at as int, c),
    {
        if at >= self.string.len() {
            self.string.push(c);
        } else {
            self.string.insert(at, c);
        }
    }

    /// Removes the character at `at`; does nothing at the start of the row or past its end.
    pub fn delete(&mut self, at: usize)
        ensures
            final(self)@ == deleted_inside(old(self)@, at as int),
    {
        if at >= self.string.len() || at == 0 {
            return;
        }
        self.string.remove(at);
    }

    pub fn len(&self) -> (r: usize)
        ensures
            r == self@.len(),
    {
        self.string.len()
    }

    /// The row's text.
    pub fn as_string(&self) -> (r: String)
        ensures
            r@ == self@,
    {
        string_of(&self.string)
    }

    pub fn is_empty(&self) -> (r: bool)
        ensures
            r == (self@.len() == 0),
    {
        self.string.len() == 0
    }

    /// The row's text in UTF-8.
    pub fn as_bytes(&self) -> (r: Vec<u8>)
        ensures
            r@ == vstd::utf8::encode_utf8(self@),
    {
        let s = string_of(&self.string);
        s.as_str().as_bytes_vec()
    }
}

/// A file of plain text: its name, if it has one, and its rows.
pub struct File {
    name: Option<String>,
    rows: Vec<Row>,
}

/// The lines after a backspace at `(x, y)`: at the start of a line it joins the line onto the
/// previous one; elsewhere it removes the character at `x`, except at the start of a line.
pub open spec fn file_after_delete(ls: Seq<Seq<char>>, x: int, y: int) -> Seq<Seq<char>> {
    if y < 0 || y >= ls.len() || (x == 0 && y == 0) {
        ls
    } else if x == 0 {
        ls.update(y - 1, ls[y - 1] + ls[y]).remove(y)
    } else {
        ls.update(y, deleted_inside(ls[y], x))
    }
}

/// The lines after typing `c` at `(x, y)`.
pub open spec fn file_after_insert(ls: Seq<Seq<char>>, c: char, x: int, y: int) -> Seq<Seq<char>> {
    if c == '\n' {
        after_newline(ls, x, y)
    } else if y == ls.len() {
        ls.push(seq![c])
    } else if 0 <= y < ls.len() {
        ls.update(y, inserted(ls[y], x, c))
    } else {
        ls
    }
}

impl File {
    /// The text of each row, in order.
    pub closed spec fn lines(&self) -> Seq<Seq<char>> {
        Seq::new(self.rows@.len(), |i: int| self.rows@[i]@)
    }

    pub closed spec fn file_name(&self) -> Option<String> {
        self.name
    }

    /// An unnamed file without rows.
    pub fn new() -> (r: File)
        ensures
            r.lines() == Seq::<Seq<char>>::empty(),
            r.file_name() is None,
    {
        File { name: None, rows: Vec::new() }
    }

    /// The file named `file_name` whose text is `contents`, one row per line.
    pub fn from_contents(file_name: &str, contents: &str) -> (r: File)
        ensures
            r.lines() == lines_of(contents@),
            r.file_name() is Some && r.file_name()->0@ == file_name@,
    {
        let chars = chars_of(contents);
        let lines = crate::text::split(&chars, '\n');
        let ghost p = split_on(contents@, '\n');
        proof {
            crate::text::lemma_split_on_nonempty(contents@, '\n');
        }
        let n = lines.len() - 1;
        let mut rows: Vec<Row> = Vec::new();
        let mut i: usize = 0;
        while i < n
            invariant
                i <= n,
                n == lines@.len() - 1,
                lines@.len() == p.len(),
                forall|k: int| 0 <= k < lines@.len() ==> #[trigger] lines@[k]@ == p[k],
                rows@.len() == i,
                forall|k: int| 0 <= k < i ==> #[trigger] rows@[k]@ == crate::buffer::strip_cr(p[k]),
            decreases n - i,
        {
            let line = strip_trailing_cr(&lines[i]);
            rows.push(Row { string: line });
            i = i + 1;
        }
        if lines[n].len() > 0 {
            rows.push(Row { string: lines[n].clone() });
        }
        let r = File { name: Some(file_name.to_owned()), rows };
        assert(r.lines() =~= lines_of(contents@));
        r
    }

    /// Types `c` at `at`: a newline breaks the row; on the row just past the end a new row
    /// holding `c` is appended; further down nothing happens.
    pub fn insert(&mut self, c: char, at: &Position)
        ensures
            final(self).lines() == file_after_insert(old(self).lines(), c, at.x as int, at.y as int),
            final(self).file_name() == old(self).file_name(),
    {
        if c == '\n' {
            self.insert_newline(at);
            return;
        }
        let ghost ls = old(self).lines();
        if at.y == self.rows.len() {
            let mut row = Row { string: Vec::new() };
            row.insert(0, c);
            self.rows.push(row);
        } else if at.y < self.rows.len() {
            self.rows[at.y].insert(at.x, c);
        }
        assert(self.lines() =~= file_after_insert(ls, c, at.x as int, at.y as int));
    }

    /// A backspace at `at`.
    pub fn delete(&mut self, at: &Position)
        ensures
            final(self).lines() == file_after_delete(old(self).lines(), at.x as int, at.y as int),
            final(self).file_name() == old(self).file_name(),
    {
        let ghost ls = old(self).lines();
        if at.y >= self.rows.len() || (at.x == 0 && at.y == 0) {
            return;
        }
        if at.x == 0 {
            let tail = self.rows.remove(at.y);
            let mut i: usize = 0;
            while i < tail.string.len()
                invariant
                    0 < at.y <= self.rows@.len(),
                    i <= tail.string.len(),
                    self.rows@.len() == ls.len() - 1,
                    forall|k: int|
                        0 <= k < self.rows@.len() && k != at.y - 1 ==> #[trigger] self.rows@[k]@
                            == ls.remove(at.y as int)[k],
                    self.rows@[at.y - 1]@ == ls[at.y - 1] + tail@.subrange(0, i as int),
                    tail@ == ls[at.y as int],
                    self.name == old(self).name,
                decreases tail.string.len() - i,
            {
                self.rows[at.y - 1].string.push(tail.string[i]);
                i = i + 1;
                assert(self.rows@[at.y - 1]@ =~= ls[at.y - 1] + tail@.subrange(0, i as int));
            }
            assert(tail@.subrange(0, i as int) =~= tail@);
            assert(self.lines() =~= file_after_delete(ls, at.x as int, at.y as int));
            return;
        }
        self.rows[at.y].delete(at.x);
        assert(self.lines() =~= file_after_delete(ls, at.x as int, at.y as int));
    }

    /// Breaks row `at.y` at column `at.x`, or appends an empty row when `at.y` is past the end.
    pub fn insert_newline(&mut self, at: &Position)
        ensures
            final(self).lines() == after_newline(old(self).lines(), at.x as int, at.y as int),
            final(self).file_name() == old(self).file_name(),
    {
        let ghost ls = old(self).lines();
        if at.y < self.rows.len() {
            if at.x >= self.rows[at.y].len() {
                self.rows.insert(at.y + 1, Row { string: Vec::new() });
            } else {
                let rest = self.rows[at.y].string.split_off(at.x);
                self.rows.insert(at.y + 1, Row { string: rest });
            }
        } else {
            self.rows.push(Row { string: Vec::new() });
        }
        assert(self.lines() =~= after_newline(ls, at.x as int, at.y as int));
    }

    /// The bytes that saving writes: every row in UTF-8, each followed by a newline.
    pub fn to_bytes(&self) -> (r: Vec<u8>)
        ensures
            r@ == stored_bytes(self.lines()),
    {
        let mut out: Vec<u8> = Vec::new();
        let mut i: usize = 0;
        while i < self.rows.len()
            invariant
                i <= self.rows@.len(),
                out@ == stored_bytes(self.lines().subrange(0, i as int)),
            decreases self.rows@.len() - i,
        {
            let mut bytes = self.rows[i].as_bytes();
            out.append(&mut bytes);
            out.push(10u8);
            proof {
                let t = self.lines().subrange(0, i + 1);
                assert(t.drop_last() =~= self.lines().subrange(0, i as int));
            }
            i = i + 1;
        }
        assert(self.lines().subrange(0, i as int) =~= self.lines());
        out
    }

    /// The file's name, if it has one.
    pub fn name(&self) -> (r: Option<String>)
        ensures
            r == self.file_name(),
    {
        match &self.name {
            Some(n) => Some(n.clone()),
            None => None,
        }
    }

    /// The row at `index`, if there is one.
    pub fn row(&self, index: usize) -> (r: Option<&Row>)
        ensures
            index < self.lines().len() ==> r is Some && r->0@ == self.lines()[index as int],
            index >= self.lines().len() ==> r is None,
    {
        if index < self.rows.len() {
            Some(&self.rows[index])
        } else {
            None
        }
    }

    /// The row at `index` for changing in place, if there is one.
    pub fn row_mut(&mut self, index: usize) -> (r: Option<&mut Row>)
        ensures
            index >= old(self).lines().len() ==> r is None && *final(self) == *old(self),
            index < old(self).lines().len() ==> r is Some && r->0@ == old(self).lines()[index as int],
            index < old(self).lines().len() ==> final(self).lines() == old(self).lines().update(
                index as int,
                final(r->0)@,
            ),
            final(self).file_name() == old(self).file_name(),
    {
        if index < self.rows.len() {
            Some(&mut self.rows[index])
        } else {
            None
        }
    }

    pub fn is_empty(&self) -> (r: bool)
        ensures
            r == (self.lines().len() == 0),
    {
        self.rows.len() == 0
    }

    pub fn len(&self) -> (r: usize)
        ensures
            r == self.lines().len(),
    {
        self.rows.len()
    }
}

impl Default for File {
    fn default() -> (r: File)
        ensures
            r.lines() == Seq::<Seq<char>>::empty(),
            r.file_name() is None,
    {
        File::new()
    }
}

} // verus!

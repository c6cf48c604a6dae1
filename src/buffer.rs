use vstd::prelude::*;
use vstd::string::StrSliceExecFns;
use crate::cursor::Position;
use crate::file_type::{file_type_of, highlights_numbers, FileType};
use crate::highlighting::{classify, color_of, highlights_of, HighlightType, HighlightingOptions};
use crate::terminal_utils::{fg_sequence, fg_string, reset_sequence, TermColor};
use crate::text::{chars_of, push_char, split_on, string_of};

verus! {

/// One line of text, without its newline, and the category of each of its characters.
pub struct Row {
    string: Vec<char>,
    highlighting: Vec<HighlightType>,
}

impl View for Row {
    type V = Seq<char>;

    closed spec fn view(&self) -> Seq<char> {
        self.string@
    }
}

/// `s` with `c` put before position `at`, or at the end when `at` is past it.
pub open spec fn inserted(s: Seq<char>, at: int, c: char) -> Seq<char> {
    if at < s.len() {
        s.insert(at, c)
    } else {
        s.push(c)
    }
}

/// `s` without the character at `at`; `s` itself when there is none.
pub open spec fn deleted(s: Seq<char>, at: int) -> Seq<char> {
    if 0 <= at < s.len() {
        s.remove(at)
    } else {
        s
    }
}

/// The category drawn for position `i`: the stored one, or plain where none is stored.
pub open spec fn category_at(hl: Seq<HighlightType>, i: int) -> HighlightType {
    if 0 <= i < hl.len() {
        hl[i]
    } else {
        HighlightType::Plain
    }
}

/// The characters `start..end` of `s`, each preceded by a color change wherever its category
/// differs from the one in force (plain at the start).
pub open spec fn styled(s: Seq<char>, hl: Seq<HighlightType>, start: int, end: int) -> Seq<char>
    decreases end - start,
{
    if end <= start {
        seq![]
    } else {
        let i = end - 1;
        let prev = if i == start {
            HighlightType::Plain
        } else {
            category_at(hl, i - 1)
        };
        let h = category_at(hl, i);
        let change = if h != prev {
            fg_sequence(TermColor::Rgb(color_of(h)))
        } else {
            seq![]
        };
        styled(s, hl, start, i) + change + seq![s[i]]
    }
}

/// The smaller of `a` and `b`.
pub open spec fn min(a: int, b: int) -> int {
    if a <= b {
        a
    } else {
        b
    }
}

/// What `Row::render` gives for `row` over `start..end`.
pub open spec fn rendered(row: Row, start: int, end: int) -> Seq<char> {
    let stop = min(end, row@.len() as int);
    styled(row@, row.highlights(), min(start, stop), stop) + reset_sequence('3')
}

impl Row {
    /// The category of each character, as last classified.
    pub closed spec fn highlights(&self) -> Seq<HighlightType> {
        self.highlighting@
    }

    /// An empty row.
    pub fn new() -> (r: Row)
        ensures
            r@ == Seq::<char>::empty(),
            r.highlights() == Seq::<HighlightType>::empty(),
    {
        Row { string: Vec::new(), highlighting: Vec::new() }
    }

    /// A row holding the characters of `value`, not yet classified.
    pub fn from_text(value: &str) -> (r: Row)
        ensures
            r@ == value@,
            r.highlights() == Seq::<HighlightType>::empty(),
    {
        Row { string: chars_of(value), highlighting: Vec::new() }
    }

    /// A row holding `chars`, not yet classified.
    pub fn from_chars(chars: Vec<char>) -> (r: Row)
        ensures
            r@ == chars@,
            r.highlights() == Seq::<HighlightType>::empty(),
    {
        Row { string: chars, highlighting: Vec::new() }
    }

    /// The characters `start..end`, clamped to the row, with the color of each character's
    /// category and a reset at the end.
    pub fn render(&self, start: usize, end: usize) -> (r: String)
        ensures
            r@ == rendered(*self, start as int, end as int),
    {
        let end = if end < self.string.len() {
            end
        } else {
            self.string.len()
        };
        let start = if start < end {
            start
        } else {
            end
        };
        let mut result = String::new();
        let mut current = HighlightType::Plain;
        let mut i: usize = start;
        while i < end
            invariant
                start <= i <= end <= self.string.len(),
                result@ == styled(self@, self.highlights(), start as int, i as int),
                current == (if i == start {
                    HighlightType::Plain
                } else {
                    category_at(self.highlights(), i - 1)
                }),
            decreases end - i,
        {
            let h = if i < self.highlighting.len() {
                self.highlighting[i]
            } else {
                HighlightType::Plain
            };
            if h != current {
                current = h;
                let change = fg_string(TermColor::Rgb(h.to_color()));
                result.append(change.as_str());
            }
            push_char(&mut result, self.string[i]);
            i = i + 1;
        }
        let reset = fg_string(TermColor::Reset);
        result.append(reset.as_str());
        result
    }

    /// Puts `c` before position `at`; appends it when `at` is past the end.
    pub fn insert(&mut self, at: usize, c: char)
        ensures
            final(self)@ == inserted(old(self)@, at as int, c),
            final(self).highlights() == old(self).highlights(),
    {
        if at >= self.string.len() {
            self.string.push(c);
        } else {
            self.string.insert(at, c);
        }
    }

    /// Removes the character at `at`; does nothing when `at` is past the end.
    pub fn delete(&mut self, at: usize)
        ensures
            final(self)@ == deleted(old(self)@, at as int),
            final(self).highlights() == old(self).highlights(),
    {
        if at >= self.string.len() {
            return;
        }
        self.string.remove(at);
    }

    /// Appends the characters of `other`.
    pub fn append(&mut self, other: &Row)
        ensures
            final(self)@ == old(self)@ + other@,
            final(self).highlights() == old(self).highlights(),
    {
        let mut i: usize = 0;
        while i < other.string.len()
            invariant
                i <= other.string.len(),
                self.string@ == old(self).string@ + other.string@.subrange(0, i as int),
                self.highlighting@ == old(self).highlighting@,
            decreases other.string.len() - i,
        {
            self.string.push(other.string[i]);
            i = i + 1;
            assert(self.string@ =~= old(self).string@ + other.string@.subrange(0, i as int));
        }
        assert(other.string@.subrange(0, i as int) =~= other.string@);
    }

    /// Cuts the row at `at`: it keeps `0..at` and the rest is returned, not yet classified.
    pub fn split_off(&mut self, at: usize) -> (r: Row)
        requires
            at <= old(self)@.len(),
        ensures
            final(self)@ == old(self)@.subrange(0, at as int),
            r@ == old(self)@.subrange(at as int, old(self)@.len() as int),
            final(self).highlights() == old(self).highlights(),
            r.highlights() == Seq::<HighlightType>::empty(),
    {
        let rest = self.string.split_off(at);
        Row { string: rest, highlighting: Vec::new() }
    }

    /// Classifies every character again with `options`.
    pub fn highlight(&mut self, options: HighlightingOptions)
        ensures
            final(self)@ == old(self)@,
            final(self).highlights() == highlights_of(old(self)@, options.highlight_numbers),
            final(self).highlights().len() == old(self)@.len(),
    {
        self.highlighting = classify(&self.string, &options);
    }

    pub fn len(&self) -> (r: usize)
        ensures
            r == self@.len(),
    {
        self.string.len()
    }

    /// The row's text.
    pub fn as_string(&self) -> (r: String)
        ensures
            r@ == self@,
    {
        string_of(&self.string)
    }

    /// The category of each character, as last classified.
    pub fn highlighting(&self) -> (r: &Vec<HighlightType>)
        ensures
            r@ == self.highlights(),
    {
        &self.highlighting
    }

    pub fn is_empty(&self) -> (r: bool)
        ensures
            r == (self@.len() == 0),
    {
        self.string.len() == 0
    }

    /// The row's text in UTF-8.
    pub fn as_bytes(&self) -> (r: Vec<u8>)
        ensures
            r@ == vstd::utf8::encode_utf8(self@),
    {
        let s = string_of(&self.string);
        s.as_str().as_bytes_vec()
    }
}

impl Default for Row {
    fn default() -> (r: Row)
        ensures
            r@ == Seq::<char>::empty(),
            r.highlights() == Seq::<HighlightType>::empty(),
    {
        Row::new()
    }
}

/// Putting `c` before position `at` of a row and then deleting position `at` gives the row back.
pub proof fn lemma_insert_then_delete(s: Seq<char>, at: int, c: char)
    requires
        0 <= at <= s.len(),
    ensures
        deleted(inserted(s, at, c), at) == s,
{
    if at < s.len() {
        assert(s.insert(at, c).remove(at) =~= s);
    } else {
        assert(s.push(c).remove(at) =~= s);
    }
}

/// A buffer of text: its rows, where it is saved, its type and whether it has unsaved changes.
pub struct Buffer {
    save_location: Option<String>,
    file_type: FileType,
    rows: Vec<Row>,
    dirty: bool,
}

/// The lines after breaking line `y` at column `x`: the rest of the line, empty when `x` is at
/// or past its end, becomes a new line below; past the last line, an empty line is appended.
pub open spec fn after_newline(ls: Seq<Seq<char>>, x: int, y: int) -> Seq<Seq<char>> {
    if 0 <= y < ls.len() {
        if x >= ls[y].len() {
            ls.insert(y + 1, seq![])
        } else {
            ls.update(y, ls[y].subrange(0, x)).insert(y + 1, ls[y].subrange(x, ls[y].len() as int))
        }
    } else {
        ls.push(seq![])
    }
}

/// The lines after typing `c` at `(x, y)`.
pub open spec fn after_insert(ls: Seq<Seq<char>>, c: char, x: int, y: int) -> Seq<Seq<char>> {
    if c == '\n' {
        after_newline(ls, x, y)
    } else if y == ls.len() {
        ls.push(seq![c])
    } else if 0 <= y < ls.len() {
        ls.update(y, inserted(ls[y], x, c))
    } else {
        ls
    }
}

/// The lines after a delete at `(x, y)`: forward removes the character under the cursor;
/// backspace removes the one before it, or at the start of a line joins it onto the previous.
pub open spec fn after_delete(ls: Seq<Seq<char>>, x: int, y: int, backspace: bool) -> Seq<
    Seq<char>,
> {
    if y < 0 || y >= ls.len() {
        ls
    } else if !backspace {
        ls.update(y, deleted(ls[y], x))
    } else if x == 0 && y == 0 {
        ls
    } else if x == 0 {
        ls.update(y - 1, ls[y - 1] + ls[y]).remove(y)
    } else {
        ls.update(y, deleted(ls[y], x - 1))
    }
}

/// `s` without one trailing `\r`.
pub open spec fn strip_cr(s: Seq<char>) -> Seq<char> {
    if s.len() > 0 && s.last() == '\r' {
        s.drop_last()
    } else {
        s
    }
}

/// The lines of a text: split on `\n`, a `\r` before a `\n` dropped, and no empty line after a
/// final newline.
pub open spec fn lines_of(s: Seq<char>) -> Seq<Seq<char>> {
    let p = split_on(s, '\n');
    let n = p.len() - 1;
    Seq::new(n as nat, |i: int| strip_cr(p[i])) + if p[n].len() == 0 {
        seq![]
    } else {
        seq![p[n]]
    }
}

/// The bytes of a saved buffer: each line in UTF-8, followed by a newline.
pub open spec fn stored_bytes(ls: Seq<Seq<char>>) -> Seq<u8>
    decreases ls.len(),
{
    if ls.len() == 0 {
        seq![]
    } else {
        stored_bytes(ls.drop_last()) + vstd::utf8::encode_utf8(ls.last()) + seq![10u8]
    }
}

/// Typing a character other than a newline on the row just past the end appends exactly one row,
/// which holds that character alone.
pub proof fn lemma_insert_past_end(ls: Seq<Seq<char>>, c: char)
    requires
        c != '\n',
    ensures
        after_insert(ls, c, 0, ls.len() as int).len() == ls.len() + 1,
        after_insert(ls, c, 0, ls.len() as int).last() == seq![c],
        after_insert(ls, c, 0, ls.len() as int).subrange(0, ls.len() as int) == ls,
{
    assert(ls.push(seq![c]).subrange(0, ls.len() as int) =~= ls);
}

/// Breaking row `y` at any column and then joining the next row back with a backspace at its
/// start restores the rows.
pub proof fn lemma_newline_then_join(ls: Seq<Seq<char>>, x: int, y: int)
    requires
        0 <= y < ls.len(),
        0 <= x,
    ensures
        after_delete(after_newline(ls, x, y), 0, y + 1, true) == ls,
{
    let split = after_newline(ls, x, y);
    if x >= ls[y].len() {
        assert(ls[y] + seq![] =~= ls[y]);
    } else {
        assert(ls[y].subrange(0, x) + ls[y].subrange(x, ls[y].len() as int) =~= ls[y]);
    }
    assert(split.update(y, split[y] + split[y + 1]).remove(y + 1) =~= ls);
}

impl Buffer {
    /// The text of each row, in order.
    pub closed spec fn lines(&self) -> Seq<Seq<char>> {
        Seq::new(self.rows@.len(), |i: int| self.rows@[i]@)
    }

    /// Where the buffer is saved.
    pub closed spec fn location(&self) -> Option<String> {
        self.save_location
    }

    /// The file type the buffer is highlighted for.
    pub closed spec fn kind(&self) -> FileType {
        self.file_type
    }

    /// Whether the text changed since it was opened or last saved.
    pub closed spec fn dirty(&self) -> bool {
        self.dirty
    }

    /// Every row's categories are those its characters get under the buffer's file type.
    pub closed spec fn highlighted(&self) -> bool {
        forall|i: int|
            0 <= i < self.rows@.len() ==> #[trigger] self.rows@[i].highlights() == highlights_of(
                self.rows@[i]@,
                highlights_numbers(self.file_type),
            )
    }

    /// An empty scratch buffer: no rows, no save location, plain text.
    pub fn new() -> (r: Buffer)
        ensures
            r.lines() == Seq::<Seq<char>>::empty(),
            r.location() is None,
            r.kind() == FileType::PlainText,
            !r.dirty(),
            r.highlighted(),
    {
        Buffer { save_location: None, file_type: FileType::PlainText, rows: Vec::new(), dirty: false }
    }

    /// A buffer for the file at `file_name` whose text is `contents`: one row per line, each
    /// classified under the type that the name's extension gives.
    pub fn from_contents(file_name: &str, contents: &str) -> (r: Buffer)
        ensures
            r.lines() == lines_of(contents@),
            r.location() is Some && r.location()->0@ == file_name@,
            r.kind() == file_type_of(file_name@),
            !r.dirty(),
            r.highlighted(),
    {
        let file_type = FileType::from_path(file_name);
        let chars = chars_of(contents);
        let ghost s = chars@;
        let ghost numbers = highlights_numbers(file_type);
        let mut rows: Vec<Row> = Vec::new();
        let mut current: Vec<char> = Vec::new();
        let mut i: usize = 0;
        proof {
            assert(s.subrange(0, 0) =~= Seq::<char>::empty());
        }
        while i < chars.len()
            invariant
                i <= chars.len(),
                s == chars@,
                numbers == highlights_numbers(file_type),
                split_on(s.subrange(0, i as int), '\n').len() == rows@.len() + 1,
                forall|k: int|
                    0 <= k < rows@.len() ==> #[trigger] rows@[k]@ == strip_cr(
                        split_on(s.subrange(0, i as int), '\n')[k],
                    ),
                current@ == split_on(s.subrange(0, i as int), '\n').last(),
                forall|k: int|
                    0 <= k < rows@.len() ==> #[trigger] rows@[k].highlights() == highlights_of(
                        rows@[k]@,
                        numbers,
                    ),
            decreases chars.len() - i,
        {
            let c = chars[i];
            let ghost before = split_on(s.subrange(0, i as int), '\n');
            proof {
                let t = s.subrange(0, i + 1);
                assert(t.drop_last() =~= s.subrange(0, i as int));
                assert(t.last() == c);
            }
            if c == '\n' {
                let mut line = current;
                current = Vec::new();
                let n = line.len();
                if n > 0 && line[n - 1] == '\r' {
                    line.pop();
                }
                let mut row = Row::from_chars(line);
                row.highlight(file_type.into_options());
                rows.push(row);
            } else {
                current.push(c);
            }
            i = i + 1;
            proof {
                let after = split_on(s.subrange(0, i as int), '\n');
                assert forall|k: int| 0 <= k < rows@.len() implies #[trigger] rows@[k]@ == strip_cr(
                    after[k],
                ) by {
                    if k < rows@.len() - 1 || c != '\n' {
                        assert(after[k] == before[k]);
                    }
                }
            }
        }
        proof {
            assert(s.subrange(0, s.len() as int) =~= s);
        }
        if current.len() > 0 {
            let mut row = Row::from_chars(current);
            row.highlight(file_type.into_options());
            rows.push(row);
        }
        let r = Buffer {
            save_location: Some(file_name.to_string()),
            file_type,
            rows,
            dirty: false,
        };
        proof {
            let p = split_on(s, '\n');
            assert(r.lines() =~= lines_of(contents@));
        }
        r
    }

    fn highlight_row(&mut self, at: usize)
        requires
            at < old(self).rows@.len(),
        ensures
            final(self).lines() == old(self).lines(),
            final(self).file_type == old(self).file_type,
            final(self).save_location == old(self).save_location,
            final(self).dirty == old(self).dirty,
            final(self).rows@.len() == old(self).rows@.len(),
            final(self).rows@[at as int]@ == old(self).rows@[at as int]@,
            final(self).rows@[at as int].highlights() == highlights_of(
                old(self).rows@[at as int]@,
                highlights_numbers(old(self).file_type),
            ),
            forall|i: int|
                0 <= i < old(self).rows@.len() && i != at ==> final(self).rows@[i]
                    == old(self).rows@[i],
    {
        let options = self.file_type.into_options();
        self.rows[at].highlight(options);
        assert(self.lines() =~= old(self).lines());
    }

    /// Breaks row `at.y` at column `at.x`, or appends an empty row when `at.y` is past the end.
    pub fn insert_newline(&mut self, at: &Position)
        ensures
            final(self).lines() == after_newline(old(self).lines(), at.x as int, at.y as int),
            final(self).dirty(),
            final(self).lines() != old(self).lines(),
            final(self).kind() == old(self).kind(),
            final(self).location() == old(self).location(),
            old(self).highlighted() ==> final(self).highlighted(),
    {
        let ghost ls = old(self).lines();
        if at.y < self.rows.len() {
            if at.x >= self.rows[at.y].len() {
                self.rows.insert(at.y + 1, Row::new());
            } else {
                let rest = self.rows[at.y].split_off(at.x);
                self.rows.insert(at.y + 1, rest);
            }
            let ghost rows1 = self.rows@;
            self.highlight_row(at.y);
            let ghost rows2 = self.rows@;
            self.highlight_row(at.y + 1);
            proof {
                let y = at.y as int;
                if old(self).highlighted() {
                    assert forall|i: int| 0 <= i < self.rows@.len() implies #[trigger] self.rows@[i].highlights()
                        == highlights_of(self.rows@[i]@, highlights_numbers(self.file_type)) by {
                        if i != y && i != y + 1 {
                            assert(self.rows@[i] == rows2[i]);
                            assert(rows2[i] == rows1[i]);
                            if i < y {
                                assert(rows1[i] == old(self).rows@[i]);
                            } else {
                                assert(rows1[i] == old(self).rows@[i - 1]);
                            }
                        }
                    }
                }
            }
        } else {
            self.rows.push(Row::new());
            let last = self.rows.len() - 1;
            let ghost rows1 = self.rows@;
            self.highlight_row(last);
            proof {
                if old(self).highlighted() {
                    assert forall|i: int| 0 <= i < self.rows@.len() implies #[trigger] self.rows@[i].highlights()
                        == highlights_of(self.rows@[i]@, highlights_numbers(self.file_type)) by {
                        if i != last {
                            assert(self.rows@[i] == rows1[i]);
                            assert(rows1[i] == old(self).rows@[i]);
                        }
                    }
                }
            }
        }
        self.dirty = true;
        assert(self.lines() =~= after_newline(ls, at.x as int, at.y as int));
        assert(self.lines().len() != ls.len());
    }

    /// Types `c` at `at`: a newline breaks the row; on the row just past the end a new row
    /// holding `c` is appended; further down nothing happens.
    pub fn insert(&mut self, c: char, at: &Position)
        ensures
            final(self).lines() == after_insert(old(self).lines(), c, at.x as int, at.y as int),
            final(self).dirty() == (old(self).dirty() || c == '\n' || at.y <= old(self).lines().len()),
            final(self).dirty() == (old(self).dirty() || final(self).lines() != old(self).lines()),
            final(self).kind() == old(self).kind(),
            final(self).location() == old(self).location(),
            old(self).highlighted() ==> final(self).highlighted(),
    {
        if c == '\n' {
            self.insert_newline(at);
            return;
        }
        let ghost ls = old(self).lines();
        if at.y == self.rows.len() {
            let mut row = Row::new();
            row.insert(0, c);
            self.rows.push(row);
        } else if at.y < self.rows.len() {
            self.rows[at.y].insert(at.x, c);
        } else {
            return;
        }
        let ghost rows1 = self.rows@;
        self.highlight_row(at.y);
        proof {
            if old(self).highlighted() {
                assert forall|i: int| 0 <= i < self.rows@.len() implies #[trigger] self.rows@[i].highlights()
                    == highlights_of(self.rows@[i]@, highlights_numbers(self.file_type)) by {
                    if i != at.y {
                        assert(self.rows@[i] == rows1[i]);
                        assert(rows1[i] == old(self).rows@[i]);
                    }
                }
            }
        }
        self.dirty = true;
        assert(self.lines() =~= after_insert(ls, c, at.x as int, at.y as int));
        proof {
            if at.y == ls.len() {
                assert(self.lines().len() != ls.len());
            } else {
                assert(self.lines()[at.y as int].len() != ls[at.y as int].len());
            }
        }
    }

    /// Deletes at `at`: forward removes the character there; backspace removes the one before
    /// it, or at the start of a row joins the row onto the previous one. Nothing happens past the
    /// last row, nor for a backspace at the very start.
    pub fn delete(&mut self, at: &Position, backspace: bool)
        ensures
            final(self).lines() == after_delete(
                old(self).lines(),
                at.x as int,
                at.y as int,
                backspace,
            ),
            final(self).dirty() == (old(self).dirty() || final(self).lines() != old(self).lines()),
            final(self).kind() == old(self).kind(),
            final(self).location() == old(self).location(),
            old(self).highlighted() ==> final(self).highlighted(),
    {
        let ghost ls = old(self).lines();
        if at.y >= self.rows.len() {
            return;
        }
        if !backspace {
            if at.x < self.rows[at.y].len() {
                self.rows[at.y].delete(at.x);
                let ghost rows1 = self.rows@;
                self.highlight_row(at.y);
                proof {
                    self.lemma_one_row_rehighlighted(old(self), rows1, at.y as int);
                }
                self.dirty = true;
                assert(self.lines() =~= after_delete(ls, at.x as int, at.y as int, backspace));
                assert(self.lines()[at.y as int].len() != ls[at.y as int].len());
            } else {
                assert(ls.update(at.y as int, deleted(ls[at.y as int], at.x as int)) =~= ls);
            }
            return;
        }
        if at.x == 0 && at.y == 0 {
            return;
        }
        if at.x == 0 {
            let tail = self.rows.remove(at.y);
            self.rows[at.y - 1].append(&tail);
            let ghost rows1 = self.rows@;
            self.highlight_row(at.y - 1);
            proof {
                let y = at.y as int;
                if old(self).highlighted() {
                    assert forall|i: int| 0 <= i < self.rows@.len() implies #[trigger] self.rows@[i].highlights()
                        == highlights_of(self.rows@[i]@, highlights_numbers(self.file_type)) by {
                        if i != y - 1 {
                            assert(self.rows@[i] == rows1[i]);
                            if i < y - 1 {
                                assert(rows1[i] == old(self).rows@[i]);
                            } else {
                                assert(rows1[i] == old(self).rows@[i + 1]);
                            }
                        }
                    }
                }
            }
            self.dirty = true;
            assert(self.lines() =~= after_delete(ls, at.x as int, at.y as int, backspace));
            assert(self.lines().len() != ls.len());
        } else if at.x - 1 < self.rows[at.y].len() {
            self.rows[at.y].delete(at.x - 1);
            let ghost rows1 = self.rows@;
            self.highlight_row(at.y);
            proof {
                self.lemma_one_row_rehighlighted(old(self), rows1, at.y as int);
            }
            self.dirty = true;
            assert(self.lines() =~= after_delete(ls, at.x as int, at.y as int, backspace));
            assert(self.lines()[at.y as int].len() != ls[at.y as int].len());
        } else {
            assert(ls.update(at.y as int, deleted(ls[at.y as int], at.x - 1)) =~= ls);
        }
    }

    proof fn lemma_one_row_rehighlighted(&self, before: &Buffer, rows1: Seq<Row>, y: int)
        requires
            0 <= y < before.rows@.len(),
            rows1.len() == before.rows@.len(),
            forall|i: int| 0 <= i < rows1.len() && i != y ==> rows1[i] == before.rows@[i],
            self.rows@.len() == rows1.len(),
            forall|i: int| 0 <= i < rows1.len() && i != y ==> self.rows@[i] == rows1[i],
            self.rows@[y].highlights() == highlights_of(rows1[y]@, highlights_numbers(before.file_type)),
            self.rows@[y]@ == rows1[y]@,
            self.file_type == before.file_type,
        ensures
            before.highlighted() ==> self.highlighted(),
    {
        if before.highlighted() {
            assert forall|i: int| 0 <= i < self.rows@.len() implies #[trigger] self.rows@[i].highlights()
                == highlights_of(self.rows@[i]@, highlights_numbers(self.file_type)) by {
                if i != y {
                    assert(self.rows@[i] == rows1[i]);
                    assert(rows1[i] == before.rows@[i]);
                }
            }
        }
    }

    /// Sets where the buffer is saved.
    pub fn set_save_location(&mut self, location: String)
        ensures
            final(self).lines() == old(self).lines(),
            final(self).dirty() == old(self).dirty(),
            final(self).kind() == old(self).kind(),
            final(self).location() == Some(location),
            old(self).highlighted() ==> final(self).highlighted(),
    {
        self.save_location = Some(location);
    }

    /// Records that the buffer's text has been saved.
    pub fn mark_saved(&mut self)
        ensures
            final(self).lines() == old(self).lines(),
            !final(self).dirty(),
            final(self).kind() == old(self).kind(),
            final(self).location() == old(self).location(),
            old(self).highlighted() ==> final(self).highlighted(),
    {
        self.dirty = false;
    }

    /// The bytes that saving writes: every row in UTF-8, each followed by a newline.
    pub fn to_bytes(&self) -> (r: Vec<u8>)
        ensures
            r@ == stored_bytes(self.lines()),
    {
        let mut out: Vec<u8> = Vec::new();
        let mut i: usize = 0;
        while i < self.rows.len()
            invariant
                i <= self.rows@.len(),
                out@ == stored_bytes(self.lines().subrange(0, i as int)),
            decreases self.rows@.len() - i,
        {
            let mut bytes = self.rows[i].as_bytes();
            out.append(&mut bytes);
            out.push(10u8);
            proof {
                let t = self.lines().subrange(0, i + 1);
                assert(t.drop_last() =~= self.lines().subrange(0, i as int));
            }
            i = i + 1;
        }
        assert(self.lines().subrange(0, i as int) =~= self.lines());
        out
    }

    /// Where the buffer is saved, if anywhere.
    pub fn save_location(&self) -> (r: Option<String>)
        ensures
            r == self.location(),
    {
        match &self.save_location {
            Some(l) => Some(l.clone()),
            None => None,
        }
    }

    pub fn file_type(&self) -> (r: FileType)
        ensures
            r == self.kind(),
    {
        self.file_type
    }

    pub fn is_dirty(&self) -> (r: bool)
        ensures
            r == self.dirty(),
    {
        self.dirty
    }

    pub fn is_empty(&self) -> (r: bool)
        ensures
            r == (self.lines().len() == 0),
    {
        self.rows.len() == 0
    }

    pub fn len(&self) -> (r: usize)
        ensures
            r == self.lines().len(),
    {
        self.rows.len()
    }

    /// The rows themselves.
    pub closed spec fn row_list(&self) -> Seq<Row> {
        self.rows@
    }

    /// The row at `index` for changing in place, if there is one. Changes made through it are
    /// not classified again.
    pub fn row_mut(&mut self, index: usize) -> (r: Option<&mut Row>)
        ensures
            index >= old(self).lines().len() ==> r is None && *final(self) == *old(self),
            index < old(self).lines().len() ==> r is Some && *r->0 == old(self).row_list()[index as int],
            index < old(self).lines().len() ==> final(self).row_list() == old(
                self,
            ).row_list().update(index as int, *final(r->0)),
            index < old(self).lines().len() ==> final(self).lines() == old(self).lines().update(
                index as int,
                final(r->0)@,
            ),
            final(self).location() == old(self).location(),
            final(self).kind() == old(self).kind(),
            final(self).dirty() == old(self).dirty(),
    {
        if index < self.rows.len() {
            Some(&mut self.rows[index])
        } else {
            None
        }
    }

    /// The row at `index`, if there is one.
    pub fn row(&self, index: usize) -> (r: Option<&Row>)
        ensures
            index < self.lines().len() ==> r is Some && r->0@ == self.lines()[index as int] && *r->0
                == self.row_list()[index as int],
            index >= self.lines().len() ==> r is None,
    {
        if index < self.rows.len() {
            Some(&self.rows[index])
        } else {
            None
        }
    }
}

impl Default for Buffer {
    fn default() -> (r: Buffer)
        ensures
            r.lines() == Seq::<Seq<char>>::empty(),
            r.location() is None,
            r.kind() == FileType::PlainText,
            !r.dirty(),
            r.highlighted(),
    {
        Buffer::new()
    }
}

} // verus!

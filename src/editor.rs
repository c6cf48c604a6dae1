use vstd::prelude::*;
use crate::buffer::{after_delete, after_insert, rendered, Buffer};
use crate::command::{command_of, parse_command, Command};
use crate::cursor::{
    lemma_scroll_shows_cursor,
    move_position,
    moved,
    row_len,
    sat_add,
    sat_sub,
    scroll_offset,
    scrolled,
    valid_cursor,
    Position,
};
use crate::key::{is_arrow, is_movement, Key};
use crate::message::{Message, MessageType};
use crate::file_type::display_name;
use crate::text::{
    chars_of,
    decimal,
    decimal_of,
    is_control,
    is_control_spec,
    push_all,
    spaces,
    split,
    split_on,
    string_of,
};

verus! {

/// Whether keys move and edit (`Insert`) or move and give commands (`Normal`).
#[derive(Clone, Copy, Debug, PartialEq, Eq, Structural)]
pub enum Mode {
    Normal,
    Insert,
}

/// The mode after `key`: escape returns to normal mode, `i` in normal mode enters insert mode.
pub open spec fn mode_after(mode: Mode, key: Key) -> Mode {
    if key == Key::Esc {
        Mode::Normal
    } else if mode == Mode::Normal && key == Key::Char('i') {
        Mode::Insert
    } else {
        mode
    }
}

/// The cursor and the lines of the current buffer after `key` in `mode`. Arrows move in both
/// modes; in normal mode `h j k l` move and `d` deletes forward; in insert mode backspace deletes
/// backward and a character is typed at the cursor, which then moves right.
pub open spec fn edit_after(mode: Mode, p: Position, ls: Seq<Seq<char>>, key: Key) -> (
    Position,
    Seq<Seq<char>>,
) {
    let x = p.x as int;
    let y = p.y as int;
    if is_arrow(key) {
        (moved(p, key, ls), ls)
    } else if key == Key::Esc {
        (p, ls)
    } else if mode == Mode::Normal {
        if is_movement(key) {
            (moved(p, key, ls), ls)
        } else if key == Key::Char('d') {
            (p, after_delete(ls, x, y, false))
        } else {
            (p, ls)
        }
    } else {
        match key {
            Key::Backspace => {
                if x == 0 && y == 0 {
                    (p, ls)
                } else if x == 0 {
                    (
                        Position { x: row_len(ls, y - 1) as usize, y: (y - 1) as usize },
                        after_delete(ls, x, y, true),
                    )
                } else {
                    (moved(p, Key::Left, ls), after_delete(ls, x, y, true))
                }
            },
            Key::Char(c) => {
                let changed = after_insert(ls, c, x, y);
                (moved(p, Key::Right, changed), changed)
            },
            _ => (p, ls),
        }
    }
}

proof fn lemma_edit_keeps_cursor_valid(mode: Mode, p: Position, ls: Seq<Seq<char>>, key: Key)
    requires
        valid_cursor(p, ls),
        !is_arrow(key),
        key != Key::Esc,
    ensures
        mode == Mode::Normal && key == Key::Char('d') ==> valid_cursor(
            p,
            after_delete(ls, p.x as int, p.y as int, false),
        ),
        mode == Mode::Insert && key is Char ==> valid_cursor(
            p,
            after_insert(ls, key->Char_0, p.x as int, p.y as int),
        ),
        mode == Mode::Insert && key == Key::Backspace && !(p.x == 0 && p.y == 0) ==> valid_cursor(
            edit_after(mode, p, ls, key).0,
            edit_after(mode, p, ls, key).1,
        ),
{
    let x = p.x as int;
    let y = p.y as int;
    if mode == Mode::Insert && key == Key::Backspace && !(x == 0 && y == 0) {
        if x == 0 && y < ls.len() {
            let joined = ls.update(y - 1, ls[y - 1] + ls[y]).remove(y);
            assert(joined[y - 1] == ls[y - 1] + ls[y]);
        }
    }
}

/// What a command leaves for the surroundings to do with files.
#[derive(Debug)]
pub enum Request {
    Nothing,
    /// Write the current buffer to this path, then report it with `saved`.
    Save(String),
    /// Read the file at this path and hand it to `add_buffer`.
    Open(String),
}

/// `b` is a fresh scratch buffer.
pub open spec fn is_scratch(b: Buffer) -> bool {
    &&& b.lines() == Seq::<Seq<char>>::empty()
    &&& b.location() is None
    &&& b.kind() == crate::file_type::FileType::PlainText
    &&& !b.dirty()
    &&& b.highlighted()
}

/// `n` differs from `o` at most in its current index.
pub open spec fn only_current_moved(o: Editor, n: Editor) -> bool {
    &&& n.buffer_list() == o.buffer_list()
    &&& n.cursors() == o.cursors()
    &&& n.offsets() == o.offsets()
    &&& n.size() == o.size()
    &&& n.active_mode() == o.active_mode()
    &&& n.status() == o.status()
    &&& n.quitting() == o.quitting()
}

/// `n` is `o` with another status message.
pub open spec fn only_status_changed(o: Editor, n: Editor, kind: MessageType, text: Seq<char>) -> bool {
    &&& n.buffer_list() == o.buffer_list()
    &&& n.cursors() == o.cursors()
    &&& n.offsets() == o.offsets()
    &&& n.current() == o.current()
    &&& n.size() == o.size()
    &&& n.active_mode() == o.active_mode()
    &&& n.status().kind == kind
    &&& n.status().message@ == text
    &&& n.quitting() == o.quitting()
}

/// `n` is `o` with `buffer` added at the end as the current buffer, cursor and view at the start.
pub open spec fn buffer_added(o: Editor, n: Editor, buffer: Buffer) -> bool {
    &&& n.buffer_list() == o.buffer_list().push(buffer)
    &&& n.cursors() == o.cursors().push(Position { x: 0, y: 0 })
    &&& n.offsets() == o.offsets().push(Position { x: 0, y: 0 })
    &&& n.current() == o.buffer_list().len()
    &&& n.size() == o.size()
    &&& n.active_mode() == o.active_mode()
    &&& n.status() == o.status()
    &&& n.quitting() == o.quitting()
}

/// `n` is `o` with the current buffer closed: the next one becomes current, or the previous one
/// when the last was closed; closing the only buffer leaves a fresh scratch buffer.
pub open spec fn buffer_closed(o: Editor, n: Editor) -> bool {
    let c = o.current();
    let len = o.buffer_list().len();
    &&& n.size() == o.size()
    &&& n.active_mode() == o.active_mode()
    &&& n.status() == o.status()
    &&& n.quitting() == o.quitting()
    &&& if len == 1 {
        &&& n.buffer_list().len() == 1
        &&& is_scratch(n.buffer_list()[0])
        &&& n.cursors() == seq![Position { x: 0, y: 0 }]
        &&& n.offsets() == seq![Position { x: 0, y: 0 }]
        &&& n.current() == 0
    } else {
        &&& n.buffer_list() == o.buffer_list().remove(c)
        &&& n.cursors() == o.cursors().remove(c)
        &&& n.offsets() == o.offsets().remove(c)
        &&& n.current() == if c == len - 1 {
            c - 1
        } else {
            c
        }
    }
}

/// The path a save goes to: the one given, else the buffer's own, else none (empty).
pub open spec fn save_path(tokens: Seq<Seq<char>>, location: Option<String>) -> Seq<char> {
    if tokens.len() > 1 {
        tokens[1]
    } else {
        match location {
            Some(l) => l@,
            None => Seq::<char>::empty(),
        }
    }
}

/// `n` is `o` after a save was asked for with the words `tokens`: a path given becomes the
/// current buffer's location; without any path there is an error message and nothing to write.
/// With `quit`, a quit is asked for as well.
pub open spec fn save_requested(
    o: Editor,
    n: Editor,
    tokens: Seq<Seq<char>>,
    r: Request,
    quit: bool,
) -> bool {
    let c = o.current();
    let b = o.buffer_list()[c];
    let path = save_path(tokens, b.location());
    &&& n.buffer_list().len() == o.buffer_list().len()
    &&& forall|i: int|
        0 <= i < o.buffer_list().len() && i != c ==> #[trigger] n.buffer_list()[i]
            == o.buffer_list()[i]
    &&& n.buffer_list()[c].lines() == b.lines()
    &&& n.buffer_list()[c].dirty() == b.dirty()
    &&& n.buffer_list()[c].kind() == b.kind()
    &&& (b.highlighted() ==> n.buffer_list()[c].highlighted())
    &&& if tokens.len() > 1 {
        n.buffer_list()[c].location() is Some && n.buffer_list()[c].location()->0@ == tokens[1]
    } else {
        n.buffer_list()[c].location() == b.location()
    }
    &&& n.cursors() == o.cursors()
    &&& n.offsets() == o.offsets()
    &&& n.current() == o.current()
    &&& n.size() == o.size()
    &&& n.active_mode() == o.active_mode()
    &&& n.quitting() == (o.quitting() || quit)
    &&& if path.len() == 0 {
        &&& r is Nothing
        &&& n.status().kind == MessageType::Error
        &&& n.status().message@ == "Can't save with no path set!"@
    } else {
        &&& r is Save && r->Save_0@ == path
        &&& n.status() == o.status()
    }
}

/// `n` is `o` with a quit asked for.
pub open spec fn quit_requested(o: Editor, n: Editor) -> bool {
    &&& n.buffer_list() == o.buffer_list()
    &&& n.cursors() == o.cursors()
    &&& n.offsets() == o.offsets()
    &&& n.current() == o.current()
    &&& n.size() == o.size()
    &&& n.active_mode() == o.active_mode()
    &&& n.status() == o.status()
    &&& n.quitting()
}

/// `n` and the request `r` are what the command line `command` makes of `o`; the first word
/// names the command and the second, if any, is its argument.
pub open spec fn command_done(o: Editor, n: Editor, command: Seq<char>, r: Request) -> bool {
    let t = split_on(command, ' ');
    match command_of(t[0]) {
        Command::Write => save_requested(o, n, t, r, false),
        Command::Quit => quit_requested(o, n) && r is Nothing,
        Command::WriteQuit => save_requested(o, n, t, r, true),
        Command::New => {
            &&& n.buffer_list().len() == o.buffer_list().len() + 1
            &&& is_scratch(n.buffer_list().last())
            &&& buffer_added(o, n, n.buffer_list().last())
            &&& r is Nothing
        },
        Command::Open => if t.len() > 1 {
            n == o && r is Open && r->Open_0@ == t[1]
        } else {
            only_status_changed(o, n, MessageType::Error, "File path not given!"@) && r is Nothing
        },
        Command::BufferNext => {
            &&& only_current_moved(o, n)
            &&& n.current() == if o.current() + 1 == o.buffer_list().len() {
                0
            } else {
                o.current() + 1
            }
            &&& r is Nothing
        },
        Command::BufferPrevious => {
            &&& only_current_moved(o, n)
            &&& n.current() == if o.current() == 0 {
                o.buffer_list().len() - 1
            } else {
                o.current() - 1
            }
            &&& r is Nothing
        },
        Command::BufferClose => buffer_closed(o, n) && r is Nothing,
        Command::Thanks => only_status_changed(
            o,
            n,
            MessageType::Normal,
            "Thank you! What a nice gentleman you are \u{1f377}\u{1f5ff}"@,
        ) && r is Nothing,
        Command::Empty => n == o && r is Nothing,
        Command::Unknown => only_status_changed(
            o,
            n,
            MessageType::Error,
            "Unknown command: "@ + t[0],
        ) && r is Nothing,
    }
}

/// Applies `key` to the command line `input` being typed, and tells whether typing is over:
/// enter ends it, escape ends it and clears the line, backspace removes the last character, and
/// any other character but a control character is added.
pub fn prompt_key(input: &mut Vec<char>, key: Key) -> (done: bool)
    ensures
        done == (key == Key::Char('\n') || key == Key::Esc),
        key == Key::Esc ==> final(input)@ == Seq::<char>::empty(),
        key == Key::Backspace ==> final(input)@ == if old(input)@.len() > 0 {
            old(input)@.drop_last()
        } else {
            old(input)@
        },
        (key is Char && key != Key::Char('\n') && !is_control_spec(key->Char_0)) ==> final(input)@
            == old(input)@.push(key->Char_0),
        (key is Char && (key == Key::Char('\n') || is_control_spec(key->Char_0))) ==> final(input)@
            == old(input)@,
        !(key is Char || key == Key::Esc || key == Key::Backspace) ==> final(input)@ == old(input)@,
{
    match key {
        Key::Char('\n') => true,
        Key::Char(c) => {
            if !is_control(c) {
                input.push(c);
            }
            false
        },
        Key::Backspace => {
            input.pop();
            false
        },
        Key::Esc => {
            input.clear();
            true
        },
        _ => false,
    }
}

pub open spec fn mode_name(m: Mode) -> Seq<char> {
    match m {
        Mode::Normal => "NORMAL"@,
        Mode::Insert => "INSERT"@,
    }
}

/// The status bar of a view `width` cells wide: on the left the mode, the file's name or
/// `[scratch]` and `[+]` when there are unsaved changes; on the right the file type and the
/// cursor's line and column counted from 1; spaces between, as many as fit.
pub open spec fn status_line(mode: Mode, b: Buffer, p: Position, width: int) -> Seq<char> {
    let file = match b.location() {
        Some(l) => l@,
        None => "[scratch]"@,
    };
    let dirty = if b.dirty() {
        "[+]"@
    } else {
        Seq::<char>::empty()
    };
    let left = mode_name(mode) + "   "@ + file + " "@ + dirty;
    let right = display_name(b.kind()) + "   "@ + decimal_of((p.y + 1) as nat) + ":"@
        + decimal_of((p.x + 1) as nat);
    let gap = sat_sub(width, (left.len() + right.len() + 2) as int);
    " "@ + left + Seq::new(gap as nat, |i: int| ' ') + right + " "@
}

/// The welcome banner for a view `width` cells wide: a `~`, then the title about centred, cut
/// to the width.
pub open spec fn welcome_line(version: Seq<char>, width: int) -> Seq<char> {
    let title = "Edicode -- version "@ + version;
    let padding = sat_sub(width, title.len() as int) / 2;
    let line = seq!['~'] + Seq::new(sat_sub(padding, 1) as nat, |i: int| ' ') + title;
    if line.len() > width {
        line.subrange(0, width)
    } else {
        line
    }
}

/// The welcome banner of `version` for a view `width` cells wide.
pub fn welcome_message(version: &str, width: usize) -> (r: String)
    ensures
        r@ == welcome_line(version@, width as int),
{
    let mut title: Vec<char> = Vec::new();
    push_all(&mut title, "Edicode -- version ");
    push_all(&mut title, version);
    let padding = width.saturating_sub(title.len()) / 2;
    let mut line: Vec<char> = vec!['~'];
    let mut gap = spaces(padding.saturating_sub(1));
    line.append(&mut gap);
    line.append(&mut title);
    if line.len() > width {
        line.truncate(width);
    }
    string_of(&line)
}

/// What one line of the text area shows.
#[derive(Debug)]
pub enum ScreenLine {
    /// A row of the buffer, rendered.
    Text(String),
    /// The welcome banner, shown on an empty buffer.
    Welcome,
    /// A `~` marking a line past the end.
    Filler,
}

/// The editing session: the open buffers, with a cursor and a scroll offset for each, the
/// current one, the view's size, the mode, the status message and whether to quit.
pub struct Editor {
    buffers: Vec<Buffer>,
    cursor_positions: Vec<Position>,
    scroll_offsets: Vec<Position>,
    current_buffer: usize,
    terminal_size: (u16, u16),
    mode: Mode,
    prompt_bar_message: Message,
    should_quit: bool,
}

impl Editor {
    pub closed spec fn buffer_list(&self) -> Seq<Buffer> {
        self.buffers@
    }

    pub closed spec fn cursors(&self) -> Seq<Position> {
        self.cursor_positions@
    }

    pub closed spec fn offsets(&self) -> Seq<Position> {
        self.scroll_offsets@
    }

    pub closed spec fn current(&self) -> int {
        self.current_buffer as int
    }

    /// Width and height of the text area.
    pub closed spec fn size(&self) -> (u16, u16) {
        self.terminal_size
    }

    pub closed spec fn active_mode(&self) -> Mode {
        self.mode
    }

    pub closed spec fn status(&self) -> Message {
        self.prompt_bar_message
    }

    pub closed spec fn quitting(&self) -> bool {
        self.should_quit
    }

    /// One cursor and one offset per buffer, at least one buffer, a current one among them, and
    /// every cursor valid in its buffer.
    pub closed spec fn wf(&self) -> bool {
        &&& self.buffers@.len() > 0
        &&& self.cursor_positions@.len() == self.buffers@.len()
        &&& self.scroll_offsets@.len() == self.buffers@.len()
        &&& self.current_buffer < self.buffers@.len()
        &&& forall|i: int|
            0 <= i < self.buffers@.len() ==> valid_cursor(
                self.cursor_positions@[i],
                #[trigger] self.buffers@[i].lines(),
            )
    }

    /// A session on `buffer`, with a text area of `width` by `height` cells.
    pub fn new(buffer: Buffer, width: u16, height: u16) -> (r: Editor)
        ensures
            r.wf(),
            r.buffer_list() == seq![buffer],
            r.cursors() == seq![Position { x: 0, y: 0 }],
            r.offsets() == seq![Position { x: 0, y: 0 }],
            r.current() == 0,
            r.size() == (width, height),
            r.active_mode() == Mode::Normal,
            r.status().kind == MessageType::Normal,
            r.status().message@ == Seq::<char>::empty(),
            !r.quitting(),
    {
        let r = Editor {
            buffers: vec![buffer],
            cursor_positions: vec![Position::default()],
            scroll_offsets: vec![Position::default()],
            current_buffer: 0,
            terminal_size: (width, height),
            mode: Mode::Normal,
            prompt_bar_message: Message::default(),
            should_quit: false,
        };
        assert(r.buffers@ =~= seq![buffer]);
        r
    }

    /// Scrolls the current buffer's view so that its cursor is inside it.
    pub fn scroll(&mut self)
        requires
            old(self).wf(),
        ensures
            final(self).wf(),
            final(self).buffer_list() == old(self).buffer_list(),
            final(self).cursors() == old(self).cursors(),
            final(self).current() == old(self).current(),
            final(self).size() == old(self).size(),
            final(self).active_mode() == old(self).active_mode(),
            final(self).status() == old(self).status(),
            final(self).quitting() == old(self).quitting(),
            old(self).size().0 > 0 ==> final(self).offsets()[old(self).current()].x <= old(
                self,
            ).cursors()[old(self).current()].x < final(self).offsets()[old(self).current()].x
                + old(self).size().0,
            old(self).size().1 > 0 ==> final(self).offsets()[old(self).current()].y <= old(
                self,
            ).cursors()[old(self).current()].y < final(self).offsets()[old(self).current()].y
                + old(self).size().1,
            final(self).offsets() == old(self).offsets().update(
                old(self).current(),
                Position {
                    x: scrolled(
                        old(self).cursors()[old(self).current()].x as int,
                        old(self).offsets()[old(self).current()].x as int,
                        old(self).size().0 as int,
                    ) as usize,
                    y: scrolled(
                        old(self).cursors()[old(self).current()].y as int,
                        old(self).offsets()[old(self).current()].y as int,
                        old(self).size().1 as int,
                    ) as usize,
                },
            ),
    {
        let cur = self.current_buffer;
        let cursor = self.cursor_positions[cur];
        let offset = self.scroll_offsets[cur];
        let y = scroll_offset(cursor.y, offset.y, self.terminal_size.1 as usize);
        let x = scroll_offset(cursor.x, offset.x, self.terminal_size.0 as usize);
        self.scroll_offsets.set(cur, Position { x, y });
        proof {
            if self.terminal_size.0 > 0 {
                lemma_scroll_shows_cursor(cursor.x, offset.x, self.terminal_size.0 as usize);
            }
            if self.terminal_size.1 > 0 {
                lemma_scroll_shows_cursor(cursor.y, offset.y, self.terminal_size.1 as usize);
            }
        }
    }

    /// Moves the current buffer's cursor with a movement key.
    pub fn move_cursor(&mut self, key: Key)
        requires
            old(self).wf(),
            is_movement(key),
        ensures
            final(self).wf(),
            final(self).buffer_list() == old(self).buffer_list(),
            final(self).cursors() == old(self).cursors().update(
                old(self).current(),
                moved(
                    old(self).cursors()[old(self).current()],
                    key,
                    old(self).buffer_list()[old(self).current()].lines(),
                ),
            ),
            final(self).offsets() == old(self).offsets(),
            final(self).current() == old(self).current(),
            final(self).size() == old(self).size(),
            final(self).active_mode() == old(self).active_mode(),
            final(self).status() == old(self).status(),
            final(self).quitting() == old(self).quitting(),
    {
        let cur = self.current_buffer;
        let pos = move_position(self.cursor_positions[cur], key, &self.buffers[cur]);
        self.cursor_positions.set(cur, pos);
        proof {
            assert forall|i: int| 0 <= i < self.buffers@.len() implies valid_cursor(
                self.cursor_positions@[i],
                #[trigger] self.buffers@[i].lines(),
            ) by {
                if i != cur {
                    assert(self.cursor_positions@[i] == old(self).cursor_positions@[i]);
                }
            }
        }
    }

    /// How many buffers are open.
    pub fn buffer_count(&self) -> (r: usize)
        ensures
            r == self.buffer_list().len(),
    {
        self.buffers.len()
    }

    /// The index of the buffer being edited.
    pub fn current_index(&self) -> (r: usize)
        ensures
            r == self.current(),
    {
        self.current_buffer
    }

    pub fn mode(&self) -> (r: Mode)
        ensures
            r == self.active_mode(),
    {
        self.mode
    }

    pub fn should_quit(&self) -> (r: bool)
        ensures
            r == self.quitting(),
    {
        self.should_quit
    }

    /// Width and height of the text area.
    pub fn terminal_size(&self) -> (r: (u16, u16))
        ensures
            r == self.size(),
    {
        self.terminal_size
    }

    pub fn message(&self) -> (r: &Message)
        ensures
            *r == self.status(),
    {
        &self.prompt_bar_message
    }

    /// The buffer being edited.
    pub fn current_buffer(&self) -> (r: &Buffer)
        requires
            self.wf(),
        ensures
            *r == self.buffer_list()[self.current()],
    {
        &self.buffers[self.current_buffer]
    }

    /// The cursor in the buffer being edited.
    pub fn cursor(&self) -> (r: Position)
        requires
            self.wf(),
        ensures
            r == self.cursors()[self.current()],
            valid_cursor(r, self.buffer_list()[self.current()].lines()),
    {
        self.cursor_positions[self.current_buffer]
    }

    /// The top-left visible cell of the buffer being edited.
    pub fn offset(&self) -> (r: Position)
        requires
            self.wf(),
        ensures
            r == self.offsets()[self.current()],
    {
        self.scroll_offsets[self.current_buffer]
    }

    /// The status bar of the buffer being edited.
    pub fn status_bar(&self) -> (r: String)
        requires
            self.wf(),
        ensures
            r@ == status_line(
                self.active_mode(),
                self.buffer_list()[self.current()],
                self.cursors()[self.current()],
                self.size().0 as int,
            ),
    {
        let buffer = &self.buffers[self.current_buffer];
        let pos = self.cursor_positions[self.current_buffer];
        let mut left: Vec<char> = Vec::new();
        match self.mode {
            Mode::Normal => push_all(&mut left, "NORMAL"),
            Mode::Insert => push_all(&mut left, "INSERT"),
        }
        push_all(&mut left, "   ");
        match buffer.save_location() {
            Some(l) => push_all(&mut left, l.as_str()),
            None => push_all(&mut left, "[scratch]"),
        }
        push_all(&mut left, " ");
        if buffer.is_dirty() {
            push_all(&mut left, "[+]");
        }
        let mut right: Vec<char> = Vec::new();
        push_all(&mut right, buffer.file_type().name());
        push_all(&mut right, "   ");
        let mut line = decimal(pos.y as u128 + 1);
        right.append(&mut line);
        push_all(&mut right, ":");
        let mut column = decimal(pos.x as u128 + 1);
        right.append(&mut column);
        let width = self.terminal_size.0 as usize;
        let used = left.len() as u128 + right.len() as u128 + 2;
        let gap_len: usize = if used < width as u128 {
            (width as u128 - used) as usize
        } else {
            0
        };
        let mut status: Vec<char> = Vec::new();
        push_all(&mut status, " ");
        status.append(&mut left);
        let mut gap = spaces(gap_len);
        status.append(&mut gap);
        status.append(&mut right);
        push_all(&mut status, " ");
        proof {
            assert(Seq::<char>::empty() + "NORMAL"@ =~= "NORMAL"@);
            assert(Seq::<char>::empty() + "INSERT"@ =~= "INSERT"@);
            assert(Seq::<char>::empty() + display_name(buffer.kind()) =~= display_name(buffer.kind()));
        }
        string_of(&status)
    }

    /// Shows the command line being typed: `prompt` followed by `input`.
    pub fn show_prompt(&mut self, prompt: &str, input: &Vec<char>)
        requires
            old(self).wf(),
        ensures
            final(self).wf(),
            only_status_changed(*old(self), *final(self), MessageType::Normal, prompt@ + input@),
    {
        let mut text = prompt.to_owned();
        let typed = string_of(input);
        text.append(typed.as_str());
        self.prompt_bar_message = Message::new_normal(text);
    }

    /// What line `terminal_row` of the text area shows: the buffer row scrolled there, rendered
    /// from the horizontal offset over the view's width; else the welcome banner a third of the
    /// way down an empty buffer; else a filler.
    pub fn screen_line(&self, terminal_row: u16) -> (r: ScreenLine)
        requires
            self.wf(),
        ensures
            ({
                let ls = self.buffer_list()[self.current()].lines();
                let index = terminal_row + self.offsets()[self.current()].y;
                if index < ls.len() {
                    r is Text && r->Text_0@ == rendered(
                        self.buffer_list()[self.current()].row_list()[index],
                        self.offsets()[self.current()].x as int,
                        sat_add(self.offsets()[self.current()].x as int, self.size().0 as int),
                    )
                } else if ls.len() == 0 && terminal_row == self.size().1 / 3 {
                    r is Welcome
                } else {
                    r is Filler
                }
            }),
    {
        let buffer = &self.buffers[self.current_buffer];
        let offset = self.scroll_offsets[self.current_buffer];
        if offset.y < buffer.len() && (terminal_row as usize) < buffer.len() - offset.y {
            let index = terminal_row as usize + offset.y;
            match buffer.row(index) {
                Some(row) => {
                    let end = offset.x.saturating_add(self.terminal_size.0 as usize);
                    ScreenLine::Text(row.render(offset.x, end))
                },
                None => ScreenLine::Filler,
            }
        } else if buffer.is_empty() && terminal_row == self.terminal_size.1 / 3 {
            ScreenLine::Welcome
        } else {
            ScreenLine::Filler
        }
    }

    /// Adds `buffer` after the others and makes it current, with its cursor and view at the start.
    pub fn add_buffer(&mut self, buffer: Buffer)
        requires
            old(self).wf(),
        ensures
            final(self).wf(),
            buffer_added(*old(self), *final(self), buffer),
    {
        self.buffers.push(buffer);
        self.cursor_positions.push(Position::default());
        self.scroll_offsets.push(Position::default());
        self.current_buffer = self.buffers.len() - 1;
        proof {
            assert forall|i: int| 0 <= i < self.buffers@.len() implies valid_cursor(
                self.cursor_positions@[i],
                #[trigger] self.buffers@[i].lines(),
            ) by {
                if i < old(self).buffers@.len() {
                    assert(self.buffers@[i] == old(self).buffers@[i]);
                    assert(self.cursor_positions@[i] == old(self).cursor_positions@[i]);
                }
            }
        }
    }

    /// Opens a fresh scratch buffer.
    pub fn command_new_buffer(&mut self)
        requires
            old(self).wf(),
        ensures
            final(self).wf(),
            final(self).buffer_list().len() == old(self).buffer_list().len() + 1,
            is_scratch(final(self).buffer_list().last()),
            buffer_added(*old(self), *final(self), final(self).buffer_list().last()),
    {
        self.add_buffer(Buffer::new());
    }

    /// Makes the next buffer current, wrapping from the last to the first.
    pub fn command_buffer_next(&mut self)
        requires
            old(self).wf(),
        ensures
            final(self).wf(),
            only_current_moved(*old(self), *final(self)),
            final(self).current() == if old(self).current() + 1 == old(self).buffer_list().len() {
                0
            } else {
                old(self).current() + 1
            },
    {
        if self.current_buffer == self.buffers.len() - 1 {
            self.current_buffer = 0;
        } else {
            self.current_buffer = self.current_buffer + 1;
        }
    }

    /// Makes the previous buffer current, wrapping from the first to the last.
    pub fn command_buffer_previous(&mut self)
        requires
            old(self).wf(),
        ensures
            final(self).wf(),
            only_current_moved(*old(self), *final(self)),
            final(self).current() == if old(self).current() == 0 {
                old(self).buffer_list().len() - 1
            } else {
                old(self).current() - 1
            },
    {
        if self.current_buffer == 0 {
            self.current_buffer = self.buffers.len() - 1;
        } else {
            self.current_buffer = self.current_buffer - 1;
        }
    }

    /// Closes the current buffer; closing the only one leaves a fresh scratch buffer.
    pub fn command_buffer_close(&mut self)
        requires
            old(self).wf(),
        ensures
            final(self).wf(),
            buffer_closed(*old(self), *final(self)),
    {
        let cur = self.current_buffer;
        self.buffers.remove(cur);
        self.cursor_positions.remove(cur);
        self.scroll_offsets.remove(cur);
        if self.buffers.len() == 0 {
            self.buffers.push(Buffer::new());
            self.cursor_positions.push(Position::default());
            self.scroll_offsets.push(Position::default());
            self.current_buffer = 0;
            assert(self.cursor_positions@ =~= seq![Position { x: 0, y: 0 }]);
            assert(self.scroll_offsets@ =~= seq![Position { x: 0, y: 0 }]);
            return;
        }
        if self.current_buffer == self.buffers.len() {
            self.current_buffer = self.buffers.len() - 1;
        }
        proof {
            assert forall|i: int| 0 <= i < self.buffers@.len() implies valid_cursor(
                self.cursor_positions@[i],
                #[trigger] self.buffers@[i].lines(),
            ) by {
                if i < cur {
                    assert(self.buffers@[i] == old(self).buffers@[i]);
                } else {
                    assert(self.buffers@[i] == old(self).buffers@[i + 1]);
                }
            }
        }
    }

    /// Asks to quit.
    pub fn command_quit(&mut self)
        requires
            old(self).wf(),
        ensures
            final(self).wf(),
            final(self).quitting(),
            final(self).buffer_list() == old(self).buffer_list(),
            final(self).cursors() == old(self).cursors(),
            final(self).offsets() == old(self).offsets(),
            final(self).current() == old(self).current(),
            final(self).size() == old(self).size(),
            final(self).active_mode() == old(self).active_mode(),
            final(self).status() == old(self).status(),
    {
        self.should_quit = true;
    }

    /// Replaces the status message.
    pub fn set_message(&mut self, message: Message)
        requires
            old(self).wf(),
        ensures
            final(self).wf(),
            only_status_changed(*old(self), *final(self), message.kind, message.message@),
            final(self).status() == message,
    {
        self.prompt_bar_message = message;
    }

    /// Works out where `w` with the words `command` saves the current buffer: the path given,
    /// which then becomes the buffer's location, or the location it has.
    pub fn command_save_file(&mut self, command: &Vec<Vec<char>>) -> (r: Request)
        requires
            old(self).wf(),
            command@.len() >= 1,
        ensures
            final(self).wf(),
            save_requested(
                *old(self),
                *final(self),
                command@.map_values(|t: Vec<char>| t@),
                r,
                false,
            ),
    {
        let ghost tokens = command@.map_values(|t: Vec<char>| t@);
        let cur = self.current_buffer;
        let path: Vec<char>;
        if command.len() > 1 {
            path = command[1].clone();
            assert(path@ == command@[1]@);
            let location = string_of(&command[1]);
            self.buffers[cur].set_save_location(location);
        } else {
            path = match self.buffers[cur].save_location() {
                Some(l) => chars_of(l.as_str()),
                None => Vec::new(),
            };
        }
        proof {
            assert forall|i: int| 0 <= i < self.buffers@.len() implies valid_cursor(
                self.cursor_positions@[i],
                #[trigger] self.buffers@[i].lines(),
            ) by {
                if i != cur {
                    assert(self.buffers@[i] == old(self).buffers@[i]);
                }
            }
        }
        if path.len() == 0 {
            self.prompt_bar_message = Message::new_error("Can't save with no path set!".to_owned());
            return Request::Nothing;
        }
        Request::Save(string_of(&path))
    }

    /// Works out which file `o` with the words `command` opens: the path given, or an error
    /// message when there is none.
    pub fn command_open_file(&mut self, command: &Vec<Vec<char>>) -> (r: Request)
        requires
            old(self).wf(),
        ensures
            final(self).wf(),
            command@.len() > 1 ==> *final(self) == *old(self) && r is Open && r->Open_0@
                == command@[1]@,
            command@.len() <= 1 ==> only_status_changed(
                *old(self),
                *final(self),
                MessageType::Error,
                "File path not given!"@,
            ) && r is Nothing,
    {
        if command.len() > 1 {
            Request::Open(string_of(&command[1]))
        } else {
            self.prompt_bar_message = Message::new_error("File path not given!".to_owned());
            Request::Nothing
        }
    }

    /// Carries out the command line `command`.
    pub fn process_command(&mut self, command: &str) -> (r: Request)
        requires
            old(self).wf(),
        ensures
            final(self).wf(),
            command_done(*old(self), *final(self), command@, r),
    {
        let chars = chars_of(command);
        let words = split(&chars, ' ');
        let ghost t = split_on(command@, ' ');
        proof {
            crate::text::lemma_split_on_nonempty(command@, ' ');
            assert(words@.map_values(|w: Vec<char>| w@) =~= t);
        }
        match parse_command(&words[0]) {
            Command::Write => self.command_save_file(&words),
            Command::Quit => {
                self.command_quit();
                Request::Nothing
            },
            Command::WriteQuit => {
                let r = self.command_save_file(&words);
                self.command_quit();
                r
            },
            Command::New => {
                self.command_new_buffer();
                Request::Nothing
            },
            Command::Open => self.command_open_file(&words),
            Command::BufferNext => {
                self.command_buffer_next();
                Request::Nothing
            },
            Command::BufferPrevious => {
                self.command_buffer_previous();
                Request::Nothing
            },
            Command::BufferClose => {
                self.command_buffer_close();
                Request::Nothing
            },
            Command::Thanks => {
                self.set_message(
                    Message::new_normal(
                        "Thank you! What a nice gentleman you are \u{1f377}\u{1f5ff}".to_owned(),
                    ),
                );
                Request::Nothing
            },
            Command::Empty => Request::Nothing,
            Command::Unknown => {
                let mut text = "Unknown command: ".to_owned();
                let name = string_of(&words[0]);
                text.append(name.as_str());
                self.set_message(Message::new_error(text));
                Request::Nothing
            },
        }
    }

    /// Reports that the current buffer was written to `path`.
    pub fn saved(&mut self, path: &str)
        requires
            old(self).wf(),
        ensures
            final(self).wf(),
            ({
                let c = old(self).current();
                let b = old(self).buffer_list()[c];
                &&& final(self).buffer_list().len() == old(self).buffer_list().len()
                &&& forall|i: int|
                    0 <= i < old(self).buffer_list().len() && i != c
                        ==> #[trigger] final(self).buffer_list()[i] == old(self).buffer_list()[i]
                &&& final(self).buffer_list()[c].lines() == b.lines()
                &&& !final(self).buffer_list()[c].dirty()
                &&& final(self).buffer_list()[c].kind() == b.kind()
                &&& final(self).buffer_list()[c].location() == b.location()
                &&& (b.highlighted() ==> final(self).buffer_list()[c].highlighted())
            }),
            final(self).cursors() == old(self).cursors(),
            final(self).offsets() == old(self).offsets(),
            final(self).current() == old(self).current(),
            final(self).size() == old(self).size(),
            final(self).active_mode() == old(self).active_mode(),
            final(self).quitting() == old(self).quitting(),
            final(self).status().kind == MessageType::Normal,
            final(self).status().message@ == seq!['"'] + path@ + "\" written"@,
    {
        let cur = self.current_buffer;
        self.buffers[cur].mark_saved();
        proof {
            assert forall|i: int| 0 <= i < self.buffers@.len() implies valid_cursor(
                self.cursor_positions@[i],
                #[trigger] self.buffers@[i].lines(),
            ) by {
                if i != cur {
                    assert(self.buffers@[i] == old(self).buffers@[i]);
                }
            }
        }
        let mut text = "\"".to_owned();
        text.append(path);
        text.append("\" written");
        proof {
            reveal_strlit("\"");
        }
        self.prompt_bar_message = Message::new_normal(text);
    }

    /// Applies one key press to the current buffer, its cursor and the mode, then scrolls. The
    /// result tells whether the key asks for a command line (`:` in normal mode).
    pub fn process_key(&mut self, key: Key) -> (prompt: bool)
        requires
            old(self).wf(),
        ensures
            final(self).wf(),
            prompt == (old(self).active_mode() == Mode::Normal && key == Key::Char(':')),
            final(self).active_mode() == mode_after(old(self).active_mode(), key),
            final(self).buffer_list().len() == old(self).buffer_list().len(),
            forall|i: int|
                0 <= i < old(self).buffer_list().len() && i != old(self).current() ==> (
                #[trigger] final(self).buffer_list()[i]) == old(self).buffer_list()[i],
            ({
                let c = old(self).current();
                let e = edit_after(
                    old(self).active_mode(),
                    old(self).cursors()[c],
                    old(self).buffer_list()[c].lines(),
                    key,
                );
                &&& final(self).buffer_list()[c].lines() == e.1
                &&& final(self).cursors() == old(self).cursors().update(c, e.0)
                &&& final(self).offsets() == old(self).offsets().update(
                    c,
                    Position {
                        x: scrolled(
                            e.0.x as int,
                            old(self).offsets()[c].x as int,
                            old(self).size().0 as int,
                        ) as usize,
                        y: scrolled(
                            e.0.y as int,
                            old(self).offsets()[c].y as int,
                            old(self).size().1 as int,
                        ) as usize,
                    },
                )
                &&& final(self).buffer_list()[c].dirty() == (old(self).buffer_list()[c].dirty()
                    || e.1 != old(self).buffer_list()[c].lines())
                &&& final(self).buffer_list()[c].kind() == old(self).buffer_list()[c].kind()
                &&& final(self).buffer_list()[c].location() == old(self).buffer_list()[c].location()
                &&& (old(self).buffer_list()[c].highlighted() ==> final(self).buffer_list()[c].highlighted())
            }),
            final(self).current() == old(self).current(),
            final(self).size() == old(self).size(),
            final(self).status().kind == MessageType::Normal,
            final(self).status().message@ == Seq::<char>::empty(),
            final(self).quitting() == old(self).quitting(),
    {
        let cur = self.current_buffer;
        let ghost ls = self.buffers@[cur as int].lines();
        let ghost p = self.cursor_positions@[cur as int];
        let ghost mode = self.mode;
        let mut prompt = false;
        self.prompt_bar_message = Message::default();
        proof {
            if !is_arrow(key) && key != Key::Esc {
                lemma_edit_keeps_cursor_valid(mode, p, ls, key);
            }
        }
        if key == Key::Esc {
            self.mode = Mode::Normal;
        } else if key == Key::Up || key == Key::Down || key == Key::Left || key == Key::Right {
            self.move_cursor(key);
        } else if self.mode == Mode::Normal {
            if key == Key::Char(':') {
                prompt = true;
            } else if key == Key::Char('i') {
                self.mode = Mode::Insert;
            } else if key == Key::Char('k') || key == Key::Char('j') || key == Key::Char('h')
                || key == Key::Char('l') {
                self.move_cursor(key);
            } else if key == Key::Char('d') {
                let pos = self.cursor_positions[cur];
                self.buffers[cur].delete(&pos, false);
            }
        } else {
            match key {
                Key::Backspace => {
                    let pos = self.cursor_positions[cur];
                    if !(pos.x == 0 && pos.y == 0) {
                        if pos.x == 0 {
                            let x = match self.buffers[cur].row(pos.y - 1) {
                                Some(row) => row.len(),
                                None => 0,
                            };
                            self.cursor_positions.set(cur, Position { x, y: pos.y - 1 });
                        } else {
                            self.move_cursor(Key::Left);
                        }
                        self.buffers[cur].delete(&pos, true);
                    }
                },
                Key::Char(c) => {
                    let pos = self.cursor_positions[cur];
                    self.buffers[cur].insert(c, &pos);
                    proof {
                        assert forall|i: int| 0 <= i < self.buffers@.len() implies valid_cursor(
                            self.cursor_positions@[i],
                            #[trigger] self.buffers@[i].lines(),
                        ) by {
                            if i != cur {
                                assert(self.buffers@[i] == old(self).buffers@[i]);
                            }
                        }
                    }
                    self.move_cursor(Key::Right);
                },
                _ => {},
            }
        }
        proof {
            assert forall|i: int| 0 <= i < self.buffers@.len() implies valid_cursor(
                self.cursor_positions@[i],
                #[trigger] self.buffers@[i].lines(),
            ) by {
                if i != cur {
                    assert(self.buffers@[i] == old(self).buffers@[i]);
                    assert(self.cursor_positions@[i] == old(self).cursor_positions@[i]);
                }
            }
        }
        self.scroll();
        prompt
    }
}

} // verus!

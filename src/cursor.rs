use vstd::prelude::*;
use crate::buffer::Buffer;
use crate::key::{is_down, is_left, is_movement, is_up, Key};

verus! {

/// A cell coordinate: `x` is a column, `y` is a row index.
#[derive(Clone, Copy, Debug, PartialEq, Eq, Structural)]
pub struct Position {
    pub x: usize,
    pub y: usize,
}

impl Default for Position {
    fn default() -> (r: Position)
        ensures
            r.x == 0 && r.y == 0,
    {
        Position { x: 0, y: 0 }
    }
}

/// The length of row `y`, or 0 past the last row.
pub open spec fn row_len(ls: Seq<Seq<char>>, y: int) -> int {
    if 0 <= y < ls.len() {
        ls[y].len() as int
    } else {
        0
    }
}

/// The cursor stands on a row or on the one just past the end, and at most at the end of it.
pub open spec fn valid_cursor(p: Position, ls: Seq<Seq<char>>) -> bool {
    p.y <= ls.len() && p.x <= row_len(ls, p.y as int)
}

/// Where a movement key takes the cursor, before it is clamped to the row it lands on.
pub open spec fn step(p: Position, k: Key, ls: Seq<Seq<char>>) -> (int, int) {
    let x = p.x as int;
    let y = p.y as int;
    if is_up(k) {
        (x, if y > 0 {
            y - 1
        } else {
            0
        })
    } else if is_down(k) {
        (x, if y < ls.len() {
            y + 1
        } else {
            y
        })
    } else if is_left(k) {
        if x > 0 {
            (x - 1, y)
        } else if y > 0 {
            (row_len(ls, y - 1), y - 1)
        } else {
            (x, y)
        }
    } else {
        if x < row_len(ls, y) {
            (x + 1, y)
        } else if y < ls.len() {
            (0, y + 1)
        } else {
            (x, y)
        }
    }
}

/// Where a movement key takes the cursor: up and down change the row, left and right the column
/// and wrap to the neighbouring row; the column is then clamped to the row's length.
pub open spec fn moved(p: Position, k: Key, ls: Seq<Seq<char>>) -> Position {
    let (x, y) = step(p, k, ls);
    let w = row_len(ls, y);
    Position { x: (if x > w {
        w
    } else {
        x
    }) as usize, y: y as usize }
}

/// `a + b`, stopping at the largest `usize`.
pub open spec fn sat_add(a: int, b: int) -> int {
    if a + b > usize::MAX {
        usize::MAX as int
    } else {
        a + b
    }
}

/// `a - b`, stopping at 0.
pub open spec fn sat_sub(a: int, b: int) -> int {
    if a < b {
        0
    } else {
        a - b
    }
}

/// The offset along one axis after scrolling so that `cursor` is in view: unchanged when it
/// already is, else moved the least amount that shows it.
pub open spec fn scrolled(cursor: int, offset: int, size: int) -> int {
    if cursor < offset {
        cursor
    } else if cursor >= sat_add(offset, size) {
        sat_add(sat_sub(cursor, size), 1)
    } else {
        offset
    }
}

/// The offset along one axis that keeps `cursor` in a view of `size` cells.
pub fn scroll_offset(cursor: usize, offset: usize, size: usize) -> (r: usize)
    ensures
        r == scrolled(cursor as int, offset as int, size as int),
{
    if cursor < offset {
        cursor
    } else if cursor >= offset.saturating_add(size) {
        cursor.saturating_sub(size).saturating_add(1)
    } else {
        offset
    }
}

/// After scrolling, the cursor lies inside the view, on both axes alike.
pub proof fn lemma_scroll_shows_cursor(cursor: usize, offset: usize, size: usize)
    requires
        size > 0,
    ensures
        scrolled(cursor as int, offset as int, size as int) <= cursor,
        cursor < scrolled(cursor as int, offset as int, size as int) + size,
{
}

/// Scrolling a second time with the cursor unchanged changes nothing.
pub proof fn lemma_scroll_idempotent(cursor: usize, offset: usize, size: usize)
    requires
        size > 0,
    ensures
        scrolled(cursor as int, scrolled(cursor as int, offset as int, size as int), size as int)
            == scrolled(cursor as int, offset as int, size as int),
{
}

/// Every movement keeps the cursor on a row, or on the one past the end, within its length.
pub proof fn lemma_move_keeps_cursor_valid(p: Position, k: Key, ls: Seq<Seq<char>>)
    requires
        valid_cursor(p, ls),
        ls.len() <= usize::MAX,
        forall|i: int| 0 <= i < ls.len() ==> #[trigger] ls[i].len() <= usize::MAX,
    ensures
        valid_cursor(moved(p, k, ls), ls),
{
}

/// From any valid cursor, a movement followed by scrolling on both axes leaves a valid cursor
/// inside the view.
pub proof fn lemma_move_then_scroll_shows_cursor(
    p: Position,
    k: Key,
    ls: Seq<Seq<char>>,
    offset: Position,
    width: usize,
    height: usize,
)
    requires
        valid_cursor(p, ls),
        ls.len() <= usize::MAX,
        forall|i: int| 0 <= i < ls.len() ==> #[trigger] ls[i].len() <= usize::MAX,
        width > 0,
        height > 0,
    ensures
        ({
            let c = moved(p, k, ls);
            let ox = scrolled(c.x as int, offset.x as int, width as int);
            let oy = scrolled(c.y as int, offset.y as int, height as int);
            &&& valid_cursor(c, ls)
            &&& ox <= c.x < ox + width
            &&& oy <= c.y < oy + height
        }),
{
    lemma_move_keeps_cursor_valid(p, k, ls);
    let c = moved(p, k, ls);
    lemma_scroll_shows_cursor(c.x, offset.x, width);
    lemma_scroll_shows_cursor(c.y, offset.y, height);
}

/// Where a movement key takes the cursor in `buffer`.
pub fn move_position(pos: Position, key: Key, buffer: &Buffer) -> (r: Position)
    requires
        is_movement(key),
        valid_cursor(pos, buffer.lines()),
    ensures
        r == moved(pos, key, buffer.lines()),
        valid_cursor(r, buffer.lines()),
{
    let mut x = pos.x;
    let mut y = pos.y;
    let height = buffer.len();
    let width = match buffer.row(y) {
        Some(row) => row.len(),
        None => 0,
    };
    if key == Key::Up || key == Key::Char('k') {
        y = y.saturating_sub(1);
    } else if key == Key::Down || key == Key::Char('j') {
        if y < height {
            y = y + 1;
        }
    } else if key == Key::Left || key == Key::Char('h') {
        if x > 0 {
            x = x - 1;
        } else if y > 0 {
            y = y - 1;
            x = match buffer.row(y) {
                Some(row) => row.len(),
                None => 0,
            };
        }
    } else {
        if x < width {
            x = x + 1;
        } else if y < height {
            y = y + 1;
            x = 0;
        }
    }
    let width = match buffer.row(y) {
        Some(row) => row.len(),
        None => 0,
    };
    if x > width {
        x = width;
    }
    Position { x, y }
}

} // verus!

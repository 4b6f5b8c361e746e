//! A text cursor kept as a row and a column, and its byte position in a text.

use vstd::prelude::*;
use vstd::utf8::encode_utf8;

verus! {

/// A direction in which the cursor moves.
#[derive(Debug, Clone, Copy, PartialEq, Eq, Structural)]
pub enum Direction {
    Up,
    Down,
    Left,
    Right,
}

/// A cursor: a row (a line) and a column (a byte within that line).
pub struct Cursor {
    col: usize,
    row: usize,
}

/// The first position at or after `i` that holds a newline, or the end.
pub open spec fn line_end(b: Seq<u8>, i: int) -> int
    decreases b.len() - i,
{
    if i < 0 || i >= b.len() || b[i] == 10u8 {
        i
    } else {
        line_end(b, i + 1)
    }
}

/// The byte position of row `row`, column `col`, counting rows from the line
/// that starts at `start`. A row past the last line stays on the last line;
/// a column past the end of its line stays on the line's last byte.
pub open spec fn pos_from(b: Seq<u8>, start: int, row: nat, col: nat) -> int
    decreases b.len() - start,
{
    let e = line_end(b, start);
    if row > 0 && start <= e < b.len() {
        pos_from(b, e + 1, (row - 1) as nat, col)
    } else {
        let last: int = if e - start > 0 {
            e - start - 1
        } else {
            0
        };
        start + if col <= last {
            col as int
        } else {
            last
        }
    }
}

/// Where a move in direction `d` takes the cursor `(row, col)`; a move
/// left or up stops at zero.
pub open spec fn moved(c: (nat, nat), d: Direction) -> (nat, nat) {
    match d {
        Direction::Right => (c.0, (c.1 + 1) as nat),
        Direction::Left => (c.0, if c.1 > 0 {
            (c.1 - 1) as nat
        } else {
            0
        }),
        Direction::Down => ((c.0 + 1) as nat, c.1),
        Direction::Up => (if c.0 > 0 {
            (c.0 - 1) as nat
        } else {
            0
        }, c.1),
    }
}

impl View for Cursor {
    /// The row, then the column.
    type V = (nat, nat);

    closed spec fn view(&self) -> (nat, nat) {
        (self.row as nat, self.col as nat)
    }
}

impl Default for Cursor {
    fn default() -> (r: Cursor)
        ensures
            r@ == (0nat, 0nat),
    {
        Cursor { col: 0, row: 0 }
    }
}

impl Cursor {
    /// The byte position of the cursor in `text`.
    pub fn byte_pos(&self, text: &str) -> (r: usize)
        ensures
            r == pos_from(encode_utf8(text@), 0, self@.0, self@.1),
    {
        byte_pos(text, self.row, self.col)
    }

    /// Moves the cursor one step.
    pub fn do_move(&mut self, direction: Direction)
        requires
            direction == Direction::Right ==> old(self)@.1 < usize::MAX,
            direction == Direction::Down ==> old(self)@.0 < usize::MAX,
        ensures
            final(self)@ == moved(old(self)@, direction),
    {
        match direction {
            Direction::Right => self.col = self.col + 1,
            Direction::Left => self.col = if self.col > 0 {
                self.col - 1
            } else {
                0
            },
            Direction::Down => self.row = self.row + 1,
            Direction::Up => self.row = if self.row > 0 {
                self.row - 1
            } else {
                0
            },
        }
    }
}

/// The byte position in `s` of row `row`, column `col`.
pub fn byte_pos(s: &str, row: usize, col: usize) -> (r: usize)
    ensures
        r == pos_from(encode_utf8(s@), 0, row as nat, col as nat),
{
    let b = s.as_bytes();
    let n = b.len();
    let mut start: usize = 0;
    let mut rows: usize = row;
    loop
        invariant
            start <= n,
            n == b@.len(),
            b@ == encode_utf8(s@),
            pos_from(b@, 0, row as nat, col as nat) == pos_from(
                b@,
                start as int,
                rows as nat,
                col as nat,
            ),
        decreases n - start,
    {
        let mut e: usize = start;
        while e < n && b[e] != 10u8
            invariant
                start <= e <= n,
                n == b@.len(),
                line_end(b@, start as int) == line_end(b@, e as int),
            decreases n - e,
        {
            e = e + 1;
        }
        if rows > 0 && e < n {
            rows = rows - 1;
            start = e + 1;
        } else {
            let last: usize = if e - start > 0 {
                e - start - 1
            } else {
                0
            };
            return start + if col <= last {
                col
            } else {
                last
            };
        }
    }
}

} // verus!

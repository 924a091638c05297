//! The editor state: line buffer, cursor, scroll offset, and the
//! operations that mutate them.

use vstd::prelude::*;
use crate::chars::is_control_char;
use crate::chars::check_control;

verus! {

/// Logical cursor position, zero-indexed: `row` selects a buffer line,
/// `column` an insertion point within it.
#[derive(Clone, Copy, PartialEq, Eq, Structural, Debug)]
pub struct Cursor {
    pub row: usize,
    pub column: usize,
}

/// The editor state: the text as lines of characters, the cursor, and the
/// index of the buffer line shown at the top of the screen.
pub struct Kiro {
    pub buffer: Vec<Vec<char>>,
    pub cursor: Cursor,
    pub row_offset: usize,
}

/// Mathematical model of the editor state.
pub ghost struct EdState {
    pub lines: Seq<Seq<char>>,
    pub row: int,
    pub col: int,
    pub off: int,
}

/// The lines of a buffer as a sequence of character sequences.
pub open spec fn buf_view(b: Vec<Vec<char>>) -> Seq<Seq<char>> {
    Seq::new(b@.len(), |i: int| b@[i]@)
}

impl View for Kiro {
    type V = EdState;

    open spec fn view(&self) -> EdState {
        EdState {
            lines: buf_view(self.buffer),
            row: self.cursor.row as int,
            col: self.cursor.column as int,
            off: self.row_offset as int,
        }
    }
}

impl EdState {
    /// The state invariant: at least one line, the cursor's row inside the
    /// buffer, and its column at most the length of its line.
    pub open spec fn wf(self) -> bool {
        &&& self.lines.len() >= 1
        &&& 0 <= self.row < self.lines.len()
        &&& 0 <= self.col <= self.lines[self.row].len()
        &&& 0 <= self.off
    }
}

/// Clamp the scroll offset so a window of `rows` lines starting there
/// shows the cursor's row: first down to the cursor's row, then up to
/// `row + 1 - rows` when the row would fall below the window.
pub open spec fn scroll_spec(s: EdState, rows: int) -> EdState {
    let low = if s.off <= s.row {
        s.off
    } else {
        s.row
    };
    let off = if s.row + 1 >= rows {
        if low >= s.row + 1 - rows {
            low
        } else {
            s.row + 1 - rows
        }
    } else {
        low
    };
    EdState { off, ..s }
}

/// Move the cursor up one row if possible, clamping the column to the
/// new line's length.
pub open spec fn cursor_up_spec(s: EdState) -> EdState {
    if s.row > 0 {
        let len = s.lines[s.row - 1].len() as int;
        EdState {
            row: s.row - 1,
            col: if s.col <= len {
                s.col
            } else {
                len
            },
            ..s
        }
    } else {
        s
    }
}

/// Move the cursor down one row if possible, clamping the column to the
/// new line's length.
pub open spec fn cursor_down_spec(s: EdState) -> EdState {
    if s.row + 1 < s.lines.len() {
        let len = s.lines[s.row + 1].len() as int;
        EdState {
            row: s.row + 1,
            col: if s.col <= len {
                s.col
            } else {
                len
            },
            ..s
        }
    } else {
        s
    }
}

/// Move the cursor one column left; column zero is a hard boundary and
/// never wraps to the previous line.
pub open spec fn cursor_left_spec(s: EdState) -> EdState {
    if s.col > 0 {
        EdState { col: s.col - 1, ..s }
    } else {
        s
    }
}

/// Move the cursor one column right, clamped to the line's length; the
/// cursor never advances to the next line.
pub open spec fn cursor_right_spec(s: EdState) -> EdState {
    let len = s.lines[s.row].len() as int;
    EdState {
        col: if s.col + 1 <= len {
            s.col + 1
        } else {
            len
        },
        ..s
    }
}

/// Insert a character at the cursor. A line break splits the current line
/// at the cursor's column and puts the cursor at the start of the new
/// line; any other printable character is inserted in place and the
/// cursor advances; control characters are ignored.
pub open spec fn insert_spec(s: EdState, c: char, rows: int) -> EdState {
    if c == '\n' {
        let head = s.lines[s.row].take(s.col);
        let tail = s.lines[s.row].skip(s.col);
        scroll_spec(
            EdState {
                lines: s.lines.update(s.row, head).insert(s.row + 1, tail),
                row: s.row + 1,
                col: 0,
                off: s.off,
            },
            rows,
        )
    } else if !is_control_char(c) {
        EdState { lines: s.lines.update(s.row, s.lines[s.row].insert(s.col, c)), col: s.col + 1, ..s }
    } else {
        s
    }
}

/// Erase backward. At the absolute start this is a no-op; at the start of
/// a later line it joins the line onto the previous one, the cursor
/// landing at the join point; otherwise it removes the character left of
/// the cursor.
pub open spec fn back_space_spec(s: EdState) -> EdState {
    if s.row == 0 && s.col == 0 {
        s
    } else if s.col == 0 {
        let moved = s.lines[s.row];
        let prev = s.lines[s.row - 1];
        EdState {
            lines: s.lines.update(s.row - 1, prev + moved).remove(s.row),
            row: s.row - 1,
            col: prev.len() as int,
            ..s
        }
    } else {
        EdState {
            lines: s.lines.update(s.row, s.lines[s.row].remove(s.col - 1)),
            col: s.col - 1,
            ..s
        }
    }
}

/// Erase forward. At the absolute end this is a no-op; at the end of an
/// earlier line it joins the next line onto the current one; otherwise it
/// removes the character under the cursor. The cursor never moves.
pub open spec fn delete_spec(s: EdState) -> EdState {
    if s.row == s.lines.len() - 1 && s.col == s.lines[s.row].len() {
        s
    } else if s.col == s.lines[s.row].len() {
        EdState {
            lines: s.lines.update(s.row, s.lines[s.row] + s.lines[s.row + 1]).remove(s.row + 1),
            ..s
        }
    } else {
        EdState { lines: s.lines.update(s.row, s.lines[s.row].remove(s.col)), ..s }
    }
}

impl Default for Kiro {
    /// A fresh editor: one empty line, cursor at the origin, no scroll.
    fn default() -> (k: Kiro)
        ensures
            k@.lines =~~= seq![Seq::<char>::empty()],
            k@.row == 0,
            k@.col == 0,
            k@.off == 0,
            k@.wf(),
    {
        let mut buffer: Vec<Vec<char>> = Vec::new();
        buffer.push(Vec::new());
        let k = Kiro { buffer, cursor: Cursor { row: 0, column: 0 }, row_offset: 0 };
        proof {
            assert(k@.lines =~~= seq![Seq::<char>::empty()]);
        }
        k
    }
}

impl Kiro {
    /// Decides the state invariant, so that unverified callers can check
    /// it before relying on it.
    pub fn is_well_formed(&self) -> (r: bool)
        ensures
            r == self@.wf(),
    {
        self.buffer.len() >= 1 && self.cursor.row < self.buffer.len()
            && self.cursor.column <= self.buffer[self.cursor.row].len()
    }

    /// Re-clamp the scroll offset so the cursor's row is visible in a
    /// window of `rows` lines.
    pub fn scroll(&mut self, rows: usize)
        requires
            old(self)@.wf(),
        ensures
            final(self)@ == scroll_spec(old(self)@, rows as int),
            final(self)@.wf(),
    {
        let n = self.buffer.len();
        assert(self.cursor.row < n);
        if self.row_offset > self.cursor.row {
            self.row_offset = self.cursor.row;
        }
        if self.cursor.row + 1 >= rows {
            let bound = self.cursor.row + 1 - rows;
            if self.row_offset < bound {
                self.row_offset = bound;
            }
        }
    }

    /// Move the cursor up one row, clamping the column, then re-scroll.
    pub fn cursor_up(&mut self, rows: usize)
        requires
            old(self)@.wf(),
        ensures
            final(self)@ == scroll_spec(cursor_up_spec(old(self)@), rows as int),
            final(self)@.wf(),
    {
        if self.cursor.row > 0 {
            self.cursor.row = self.cursor.row - 1;
            let len = self.buffer[self.cursor.row].len();
            if self.cursor.column > len {
                self.cursor.column = len;
            }
        }
        self.scroll(rows);
    }

    /// Move the cursor down one row, clamping the column, then re-scroll.
    pub fn cursor_down(&mut self, rows: usize)
        requires
            old(self)@.wf(),
        ensures
            final(self)@ == scroll_spec(cursor_down_spec(old(self)@), rows as int),
            final(self)@.wf(),
    {
        let n = self.buffer.len();
        assert(self.cursor.row < n);
        if self.cursor.row + 1 < n {
            self.cursor.row = self.cursor.row + 1;
            let len = self.buffer[self.cursor.row].len();
            if self.cursor.column > len {
                self.cursor.column = len;
            }
        }
        self.scroll(rows);
    }

    /// Move the cursor one column left, then re-scroll; column zero is a
    /// hard boundary.
    pub fn cursor_left(&mut self, rows: usize)
        requires
            old(self)@.wf(),
        ensures
            final(self)@ == scroll_spec(cursor_left_spec(old(self)@), rows as int),
            final(self)@.wf(),
    {
        if self.cursor.column > 0 {
            self.cursor.column = self.cursor.column - 1;
        }
        self.scroll(rows);
    }

    /// Move the cursor one column right, clamped to the line's length,
    /// then re-scroll.
    pub fn cursor_right(&mut self, rows: usize)
        requires
            old(self)@.wf(),
        ensures
            final(self)@ == scroll_spec(cursor_right_spec(old(self)@), rows as int),
            final(self)@.wf(),
    {
        if self.cursor.column < self.buffer[self.cursor.row].len() {
            self.cursor.column = self.cursor.column + 1;
        }
        self.scroll(rows);
    }

    /// Insert a character at the cursor; a line break splits the line.
    pub fn insert(&mut self, c: char, rows: usize)
        requires
            old(self)@.wf(),
        ensures
            final(self)@ == insert_spec(old(self)@, c, rows as int),
            final(self)@.wf(),
    {
        let n = self.buffer.len();
        assert(self.cursor.row < n);
        if c == '\n' {
            let row = self.cursor.row;
            let col = self.cursor.column;
            let mut line = self.buffer.remove(row);
            let tail = line.split_off(col);
            self.buffer.insert(row, line);
            self.buffer.insert(row + 1, tail);
            self.cursor.row = row + 1;
            self.cursor.column = 0;
            proof {
                let s = old(self)@;
                assert(self@.lines =~~= s.lines.update(s.row, s.lines[s.row].take(s.col)).insert(
                    s.row + 1,
                    s.lines[s.row].skip(s.col),
                ));
            }
            self.scroll(rows);
        } else if !check_control(c) {
            let row = self.cursor.row;
            let mut line = self.buffer.remove(row);
            line.insert(self.cursor.column, c);
            let m = line.len();
            assert(self.cursor.column < m);
            self.buffer.insert(row, line);
            self.cursor.column = self.cursor.column + 1;
            proof {
                let s = old(self)@;
                assert(self@.lines =~~= s.lines.update(s.row, s.lines[s.row].insert(s.col, c)));
            }
        }
    }

    /// Erase backward: join onto the previous line at column zero, else
    /// remove the character left of the cursor.
    pub fn back_space(&mut self)
        requires
            old(self)@.wf(),
        ensures
            final(self)@ == back_space_spec(old(self)@),
            final(self)@.wf(),
    {
        if self.cursor.row == 0 && self.cursor.column == 0 {
            return ;
        }
        if self.cursor.column == 0 {
            let mut moved = self.buffer.remove(self.cursor.row);
            self.cursor.row = self.cursor.row - 1;
            let mut prev = self.buffer.remove(self.cursor.row);
            self.cursor.column = prev.len();
            prev.append(&mut moved);
            self.buffer.insert(self.cursor.row, prev);
            proof {
                let s = old(self)@;
                assert(self@.lines =~~= s.lines.update(
                    s.row - 1,
                    s.lines[s.row - 1] + s.lines[s.row],
                ).remove(s.row));
            }
        } else {
            self.cursor.column = self.cursor.column - 1;
            let row = self.cursor.row;
            let mut line = self.buffer.remove(row);
            line.remove(self.cursor.column);
            self.buffer.insert(row, line);
            proof {
                let s = old(self)@;
                assert(self@.lines =~~= s.lines.update(s.row, s.lines[s.row].remove(s.col - 1)));
            }
        }
    }

    /// Erase forward: join the next line at end of line, else remove the
    /// character under the cursor.
    pub fn delete(&mut self)
        requires
            old(self)@.wf(),
        ensures
            final(self)@ == delete_spec(old(self)@),
            final(self)@.wf(),
    {
        let row = self.cursor.row;
        let line_len = self.buffer[row].len();
        if row == self.buffer.len() - 1 && self.cursor.column == line_len {
            return ;
        }
        if self.cursor.column == line_len {
            let mut next = self.buffer.remove(row + 1);
            let mut line = self.buffer.remove(row);
            line.append(&mut next);
            self.buffer.insert(row, line);
            proof {
                let s = old(self)@;
                assert(self@.lines =~~= s.lines.update(
                    s.row,
                    s.lines[s.row] + s.lines[s.row + 1],
                ).remove(s.row + 1));
            }
        } else {
            let mut line = self.buffer.remove(row);
            line.remove(self.cursor.column);
            self.buffer.insert(row, line);
            proof {
                let s = old(self)@;
                assert(self@.lines =~~= s.lines.update(s.row, s.lines[s.row].remove(s.col)));
            }
        }
    }
}

/// Law: the scroll clamp is idempotent: re-clamping with the same
/// viewport height changes nothing.
pub proof fn lemma_scroll_idempotent(s: EdState, rows: int)
    ensures
        scroll_spec(scroll_spec(s, rows), rows) == scroll_spec(s, rows),
{
}

/// Law: the clamped offset makes the cursor's row fall inside a viewport
/// of `rows` lines starting at the offset.
pub proof fn lemma_scroll_shows_cursor(s: EdState, rows: int)
    requires
        s.wf(),
        rows >= 1,
    ensures
        scroll_spec(s, rows).off <= s.row < scroll_spec(s, rows).off + rows,
{
}

/// Law: splitting a line with a line-break insert and then erasing
/// backward at the resulting position restores the original lines and
/// the original cursor position.
pub proof fn lemma_split_then_join(s: EdState, rows: int)
    requires
        s.wf(),
    ensures
        ({
            let t = back_space_spec(insert_spec(s, '\n', rows));
            t.lines == s.lines && t.row == s.row && t.col == s.col
        }),
{
    let head = s.lines[s.row].take(s.col);
    let tail = s.lines[s.row].skip(s.col);
    let mid = insert_spec(s, '\n', rows);
    assert(mid.lines == s.lines.update(s.row, head).insert(s.row + 1, tail));
    assert(mid.lines[s.row + 1] == tail);
    assert(mid.lines[s.row] == head);
    assert(head + tail =~~= s.lines[s.row]);
    let t = back_space_spec(mid);
    assert(t.lines =~~= s.lines);
}

/// Law: joining two lines with a forward erase at end of line and then
/// splitting with a line-break insert restores the original lines; the
/// cursor lands at the start of the lower line.
pub proof fn lemma_join_then_split(s: EdState, rows: int)
    requires
        s.wf(),
        s.row + 1 < s.lines.len(),
        s.col == s.lines[s.row].len(),
    ensures
        ({
            let t = insert_spec(delete_spec(s), '\n', rows);
            t.lines == s.lines && t.row == s.row + 1 && t.col == 0
        }),
{
    let a = s.lines[s.row];
    let b = s.lines[s.row + 1];
    let mid = delete_spec(s);
    assert(mid.lines == s.lines.update(s.row, a + b).remove(s.row + 1));
    assert(mid.lines[s.row] == a + b);
    assert((a + b).take(s.col) =~~= a);
    assert((a + b).skip(s.col) =~~= b);
    let t = insert_spec(mid, '\n', rows);
    assert(t.lines =~~= s.lines);
}

} // verus!

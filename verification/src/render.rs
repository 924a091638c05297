//! The renderer: walks the visible buffer slice, wraps lines by display
//! width, and produces an abstract screen image together with the
//! on-screen cursor cell.

use vstd::prelude::*;
use crate::chars::width_of;
use crate::chars::char_width;
use crate::editor::Kiro;
use crate::editor::buf_view;

verus! {

/// The abstract screen image: the characters of each screen row that the
/// renderer produced, and the screen cell the cursor falls on, if its
/// buffer position is in view.
pub struct Screen {
    pub rows: Vec<Vec<char>>,
    pub cursor: Option<(usize, usize)>,
}

/// Intermediate state of the renderer: closed screen rows, the row being
/// filled and the column position in it, the cursor cell found so far,
/// and whether the vertical clip has been reached.
pub ghost struct RState {
    pub done: Seq<Seq<char>>,
    pub cur: Seq<char>,
    pub col: int,
    pub curs: Option<(int, int)>,
    pub stopped: bool,
}

/// The cursor cell of a screen image, as a pair of mathematical integers.
pub open spec fn opt_view(o: Option<(usize, usize)>) -> Option<(int, int)> {
    match o {
        Some((r, c)) => Some((r as int, c as int)),
        None => None,
    }
}

/// Assemble a renderer state from its parts.
pub open spec fn rstate(
    done: Seq<Seq<char>>,
    cur: Seq<char>,
    col: int,
    curs: Option<(int, int)>,
    stopped: bool,
) -> RState {
    RState { done, cur, col, curs, stopped }
}

/// Record the current screen cell as the cursor cell when the position
/// under inspection is the cursor's buffer position.
pub open spec fn mark_cursor(st: RState, here: bool) -> RState {
    if !st.stopped && here {
        RState { curs: Some((st.done.len() as int, st.col)), ..st }
    } else {
        st
    }
}

/// Emit one character: wrap to a fresh row first when it would reach the
/// right edge, and stop instead of wrapping once `rows` screen rows are
/// full. The wrap happens before the character is emitted, so a wide
/// character is never split across two rows.
pub open spec fn put_char(st: RState, c: char, rows: int, cols: int) -> RState {
    if st.stopped {
        st
    } else {
        let w = width_of(c) as int;
        if st.col + w >= cols {
            let done2 = st.done.push(st.cur);
            if done2.len() >= rows {
                RState { done: done2, cur: Seq::<char>::empty(), col: 0, stopped: true, ..st }
            } else {
                RState { done: done2, cur: seq![c], col: w, ..st }
            }
        } else {
            RState { cur: st.cur.push(c), col: st.col + w, ..st }
        }
    }
}

/// Close the screen row of a finished buffer line and stop once `rows`
/// screen rows are full.
pub open spec fn end_line(st: RState, rows: int) -> RState {
    if st.stopped {
        st
    } else {
        let done2 = st.done.push(st.cur);
        RState {
            done: done2,
            cur: Seq::<char>::empty(),
            col: 0,
            stopped: done2.len() >= rows,
            ..st
        }
    }
}

/// Walk positions `j ..= line.len()` of buffer line `i`: each position is
/// checked against the cursor position `(cr, cc)` before its character,
/// if any, is emitted.
pub open spec fn line_steps(
    st: RState,
    line: Seq<char>,
    i: int,
    j: int,
    cr: int,
    cc: int,
    rows: int,
    cols: int,
) -> RState
    decreases line.len() - j + 1,
{
    if j < 0 || j > line.len() {
        st
    } else if j == line.len() {
        mark_cursor(st, cr == i && cc == j)
    } else {
        let st1 = put_char(mark_cursor(st, cr == i && cc == j), line[j], rows, cols);
        line_steps(st1, line, i, j + 1, cr, cc, rows, cols)
    }
}

/// Walk the buffer lines from `i` on, closing one screen row after each.
pub open spec fn lines_steps(
    st: RState,
    lines: Seq<Seq<char>>,
    i: int,
    cr: int,
    cc: int,
    rows: int,
    cols: int,
) -> RState
    decreases lines.len() - i + 1,
{
    if i < 0 || i >= lines.len() {
        st
    } else {
        let st1 = end_line(line_steps(st, lines[i], i, 0, cr, cc, rows, cols), rows);
        lines_steps(st1, lines, i + 1, cr, cc, rows, cols)
    }
}

/// The renderer's starting state: an empty screen, no cursor cell.
pub open spec fn init_rstate() -> RState {
    RState {
        done: Seq::<Seq<char>>::empty(),
        cur: Seq::<char>::empty(),
        col: 0,
        curs: None::<(int, int)>,
        stopped: false,
    }
}

/// The screen image of an editor state on a `rows` by `cols` terminal:
/// the buffer lines from the scroll offset on, wrapped at the right edge
/// and clipped to `rows` screen rows.
pub open spec fn render_spec(s: crate::editor::EdState, rows: int, cols: int) -> RState {
    lines_steps(init_rstate(), s.lines, s.off, s.row, s.col, rows, cols)
}

proof fn lemma_line_steps_stopped(
    st: RState,
    line: Seq<char>,
    i: int,
    j: int,
    cr: int,
    cc: int,
    rows: int,
    cols: int,
)
    requires
        st.stopped,
    ensures
        line_steps(st, line, i, j, cr, cc, rows, cols) == st,
    decreases line.len() - j + 1,
{
    if 0 <= j < line.len() {
        lemma_line_steps_stopped(st, line, i, j + 1, cr, cc, rows, cols);
    }
}

proof fn lemma_lines_steps_stopped(
    st: RState,
    lines: Seq<Seq<char>>,
    i: int,
    cr: int,
    cc: int,
    rows: int,
    cols: int,
)
    requires
        st.stopped,
    ensures
        lines_steps(st, lines, i, cr, cc, rows, cols) == st,
    decreases lines.len() - i + 1,
{
    if 0 <= i < lines.len() {
        lemma_line_steps_stopped(st, lines[i], i, 0, cr, cc, rows, cols);
        lemma_lines_steps_stopped(st, lines, i + 1, cr, cc, rows, cols);
    }
}

/// Bound kept by every renderer step: the vertical clip stops the
/// renderer before it closes more than `rows` screen rows.
pub open spec fn height_inv(st: RState, rows: int) -> bool {
    if st.stopped {
        st.done.len() <= rows
    } else {
        st.done.len() < rows
    }
}

proof fn lemma_line_steps_height(
    st: RState,
    line: Seq<char>,
    i: int,
    j: int,
    cr: int,
    cc: int,
    rows: int,
    cols: int,
)
    requires
        height_inv(st, rows),
    ensures
        height_inv(line_steps(st, line, i, j, cr, cc, rows, cols), rows),
    decreases line.len() - j + 1,
{
    if 0 <= j < line.len() {
        let st1 = put_char(mark_cursor(st, cr == i && cc == j), line[j], rows, cols);
        lemma_line_steps_height(st1, line, i, j + 1, cr, cc, rows, cols);
    }
}

proof fn lemma_lines_steps_height(
    st: RState,
    lines: Seq<Seq<char>>,
    i: int,
    cr: int,
    cc: int,
    rows: int,
    cols: int,
)
    requires
        height_inv(st, rows),
    ensures
        height_inv(lines_steps(st, lines, i, cr, cc, rows, cols), rows),
    decreases lines.len() - i + 1,
{
    if 0 <= i < lines.len() {
        lemma_line_steps_height(st, lines[i], i, 0, cr, cc, rows, cols);
        let st1 = end_line(line_steps(st, lines[i], i, 0, cr, cc, rows, cols), rows);
        lemma_lines_steps_height(st1, lines, i + 1, cr, cc, rows, cols);
    }
}

/// Law: the screen image never holds more than `rows` screen rows.
pub proof fn lemma_render_height(s: crate::editor::EdState, rows: int, cols: int)
    requires
        rows >= 1,
    ensures
        render_spec(s, rows, cols).done.len() <= rows,
{
    lemma_lines_steps_height(init_rstate(), s.lines, s.off, s.row, s.col, rows, cols);
}

impl Kiro {
    /// Render the visible part of the buffer onto a `rows` by `cols`
    /// terminal. Terminal dimensions come from 16-bit terminal size
    /// queries, hence the bounds.
    pub fn render(&self, rows: usize, cols: usize) -> (scr: Screen)
        requires
            rows <= 65535,
            cols <= 65535,
        ensures
            ({
                let st = render_spec(self@, rows as int, cols as int);
                buf_view(scr.rows) == st.done && opt_view(scr.cursor) == st.curs
            }),
            rows >= 1 ==> scr.rows@.len() <= rows,
    {
        let ghost lines = self@.lines;
        let ghost cr = self@.row;
        let ghost cc = self@.col;
        let ghost target = render_spec(self@, rows as int, cols as int);
        let mut done_rows: Vec<Vec<char>> = Vec::new();
        let mut cur: Vec<char> = Vec::new();
        let mut col: usize = 0;
        let mut curs: Option<(usize, usize)> = None;
        let mut stopped: bool = false;
        let mut i = self.row_offset;
        proof {
            assert(buf_view(done_rows) =~~= init_rstate().done);
            assert(cur@ =~~= init_rstate().cur);
            assert(rstate(buf_view(done_rows), cur@, col as int, opt_view(curs), stopped)
                == init_rstate());
        }
        while i < self.buffer.len() && !stopped
            invariant
                rows <= 65535,
                cols <= 65535,
                col <= 65535,
                lines == buf_view(self.buffer),
                cr == self.cursor.row as int,
                cc == self.cursor.column as int,
                lines_steps(
                    rstate(buf_view(done_rows), cur@, col as int, opt_view(curs), stopped),
                    lines,
                    i as int,
                    cr,
                    cc,
                    rows as int,
                    cols as int,
                ) == target,
            decreases self.buffer@.len() - i,
        {
            let ghost st0 = rstate(buf_view(done_rows), cur@, col as int, opt_view(curs), stopped);
            let line = &self.buffer[i];
            let n = line.len();
            let mut j: usize = 0;
            while j < n && !stopped
                invariant
                    rows <= 65535,
                    cols <= 65535,
                    col <= 65535,
                    j <= n,
                    i < self.buffer@.len(),
                    lines == buf_view(self.buffer),
                    line == self.buffer@[i as int],
                    n == line@.len(),
                    cr == self.cursor.row as int,
                    cc == self.cursor.column as int,
                    line_steps(
                        rstate(buf_view(done_rows), cur@, col as int, opt_view(curs), stopped),
                        lines[i as int],
                        i as int,
                        j as int,
                        cr,
                        cc,
                        rows as int,
                        cols as int,
                    ) == line_steps(st0, lines[i as int], i as int, 0, cr, cc, rows as int, cols as int),
                decreases n - j,
            {
                let ghost stj = rstate(buf_view(done_rows), cur@, col as int, opt_view(curs), stopped);
                if self.cursor.row == i && self.cursor.column == j {
                    curs = Some((done_rows.len(), col));
                }
                let ghost stm = rstate(buf_view(done_rows), cur@, col as int, opt_view(curs), stopped);
                proof {
                    assert(stm == mark_cursor(stj, cr == i as int && cc == j as int));
                }
                {
                    let c = line[j];
                    let w = char_width(c);
                    let ghost bv0 = buf_view(done_rows);
                    let ghost cur0 = cur@;
                    if col + w >= cols {
                        done_rows.push(cur);
                        cur = Vec::new();
                        col = 0;
                        if done_rows.len() >= rows {
                            stopped = true;
                        } else {
                            cur.push(c);
                            col = w;
                        }
                        proof {
                            assert(buf_view(done_rows) =~~= bv0.push(cur0));
                            if !stopped {
                                assert(cur@ =~~= seq![c]);
                            } else {
                                assert(cur@ =~~= Seq::<char>::empty());
                            }
                        }
                    } else {
                        cur.push(c);
                        col = col + w;
                    }
                    proof {
                        let stn = rstate(
                            buf_view(done_rows),
                            cur@,
                            col as int,
                            opt_view(curs),
                            stopped,
                        );
                        assert(lines[i as int][j as int] == line@[j as int]);
                        assert(stn == put_char(stm, c, rows as int, cols as int));
                        assert(line_steps(stj, lines[i as int], i as int, j as int, cr, cc,
                            rows as int, cols as int) == line_steps(stn, lines[i as int], i as int,
                            j as int + 1, cr, cc, rows as int, cols as int));
                    }
                }
                j = j + 1;
            }
            if !stopped {
                let ghost stj = rstate(buf_view(done_rows), cur@, col as int, opt_view(curs), stopped);
                if self.cursor.row == i && self.cursor.column == n {
                    curs = Some((done_rows.len(), col));
                }
                proof {
                    let stm = rstate(buf_view(done_rows), cur@, col as int, opt_view(curs), stopped);
                    assert(j == n);
                    assert(stm == mark_cursor(stj, cr == i as int && cc == n as int));
                    assert(line_steps(stj, lines[i as int], i as int, n as int, cr, cc,
                        rows as int, cols as int) == stm);
                }
            }
            proof {
                let ste = rstate(buf_view(done_rows), cur@, col as int, opt_view(curs), stopped);
                if stopped {
                    lemma_line_steps_stopped(ste, lines[i as int], i as int, j as int, cr, cc,
                        rows as int, cols as int);
                }
                assert(ste == line_steps(st0, lines[i as int], i as int, 0, cr, cc, rows as int,
                    cols as int));
            }
            let ghost stdone = rstate(buf_view(done_rows), cur@, col as int, opt_view(curs), stopped);
            if !stopped {
                let ghost bv0 = buf_view(done_rows);
                let ghost cur0 = cur@;
                done_rows.push(cur);
                cur = Vec::new();
                col = 0;
                if done_rows.len() >= rows {
                    stopped = true;
                }
                proof {
                    assert(buf_view(done_rows) =~~= bv0.push(cur0));
                    assert(cur@ =~~= Seq::<char>::empty());
                }
            }
            proof {
                let stn = rstate(buf_view(done_rows), cur@, col as int, opt_view(curs), stopped);
                assert(stn == end_line(stdone, rows as int));
                assert(lines_steps(st0, lines, i as int, cr, cc, rows as int, cols as int)
                    == lines_steps(stn, lines, i as int + 1, cr, cc, rows as int, cols as int));
            }
            i = i + 1;
        }
        proof {
            let stf = rstate(buf_view(done_rows), cur@, col as int, opt_view(curs), stopped);
            if stopped {
                lemma_lines_steps_stopped(stf, lines, i as int, cr, cc, rows as int, cols as int);
            }
            assert(stf == target);
            if rows >= 1 {
                lemma_render_height(self@, rows as int, cols as int);
            }
        }
        Screen { rows: done_rows, cursor: curs }
    }
}

} // verus!

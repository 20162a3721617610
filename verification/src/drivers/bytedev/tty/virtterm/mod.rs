//! The virtual terminal: a history of text lines, a cursor and the part of
//! the history on screen.
//!
//! The history is a ring of `HISTORY_LINES` lines. `cur_line` is the line the
//! cursor is on and `view_line` the history line shown in the top screen row.
//! A terminal only draws while it is active; what it draws is appended to its
//! list of pending screen operations, which the screen driver carries out.
use vstd::prelude::*;
use crate::drivers::bytedev::tty::{ScrollDirection, TTYDriver};
use crate::drivers::bytedev::tty::virtterm::screen::{
    ScreenAction,
    ScreenOp,
    ops_view,
    DEFAULT_CHAR,
    UINT_DISPLAY_HEIGHT,
    UINT_DISPLAY_WIDTH,
};

pub mod screen;

verus! {

/// Lines of history kept.
pub const HISTORY_LINES: usize = 150;

/// First initialisation stage of the terminals and their screen.
pub fn init_stage1() {
    screen::init_stage1();
    real_init_stage1();
}

fn real_init_stage1() {
}

/// A terminal's state as a mathematical value.
pub struct VtView {
    pub lines: Seq<Seq<u8>>,
    pub cur_line: int,
    pub cur_char: int,
    pub view_line: int,
    pub active: bool,
}

/// An empty history line.
pub open spec fn blank_line() -> Seq<u8> {
    Seq::new(80, |i: int| DEFAULT_CHAR)
}

/// The line after `l` in the history ring.
pub open spec fn next_line(l: int) -> int {
    (l + 1) % 150
}

/// The cursor is on the bottom screen row.
pub open spec fn at_bottom(v: VtView) -> bool {
    (v.view_line + 24) % 150 == v.cur_line
}

/// A line feed: the cursor goes to the next history line, the line that will
/// come into view at the bottom later is cleared, and when the cursor was on
/// the bottom row the view moves down one line. Also says whether the whole
/// screen must be redrawn (the view moved).
pub open spec fn line_feed_spec(v: VtView) -> (VtView, bool) {
    let redraw = at_bottom(v);
    let cur = next_line(v.cur_line);
    (
        VtView {
            lines: v.lines.update((cur + 25) % 150, blank_line()),
            cur_line: cur,
            view_line: if redraw { next_line(v.view_line) } else { v.view_line },
            ..v
        },
        redraw,
    )
}

/// The screen row of the cursor, if it is on screen.
pub open spec fn line_y(v: VtView) -> Option<int> {
    let y = if v.cur_line < v.view_line {
        v.cur_line + 150 - v.view_line
    } else {
        v.cur_line - v.view_line
    };
    if y >= 25 {
        None
    } else {
        Some(y)
    }
}

/// The screen column of the cursor, unless it is past the last column.
pub open spec fn cursor_col(v: VtView) -> Option<int> {
    if v.cur_char == 80 {
        None
    } else {
        Some(v.cur_char)
    }
}

/// Moving the cursor on screen, when it is on screen.
pub open spec fn cursor_ops(v: VtView) -> Seq<ScreenAction> {
    match (line_y(v), cursor_col(v)) {
        (Some(y), Some(x)) => seq![ScreenAction::MoveCursor(x as u8, y as u8)],
        _ => Seq::empty(),
    }
}

/// Redrawing the whole screen: each row shows the history line that the view
/// puts there, then the cursor moves to its place.
pub open spec fn redraw_ops(v: VtView) -> Seq<ScreenAction> {
    Seq::new(25, |y: int| ScreenAction::PutLine(y as u8, v.lines[(v.view_line + y) % 150]))
        + cursor_ops(v)
}

/// The redraw when the terminal is active, else nothing.
pub open spec fn redraw_if_active(v: VtView) -> Seq<ScreenAction> {
    if v.active {
        redraw_ops(v)
    } else {
        Seq::empty()
    }
}

/// Showing an ordinary character: past the last column the cursor first goes
/// to a new line; the character is stored under the cursor, the cursor moves
/// right, and an active terminal draws the character (or everything, when the
/// view moved).
pub open spec fn put_char_spec(v: VtView, c: u8) -> (VtView, Seq<ScreenAction>) {
    let (v1, need_redraw) = if v.cur_char == 80 {
        line_feed_spec(VtView { cur_char: 0, ..v })
    } else {
        (v, false)
    };
    let x = v1.cur_char;
    let v2 = VtView {
        lines: v1.lines.update(v1.cur_line, v1.lines[v1.cur_line].update(x, c)),
        cur_char: x + 1,
        ..v1
    };
    let ops = if !v2.active {
        Seq::empty()
    } else {
        match line_y(v2) {
            None => Seq::empty(),
            Some(y) => if need_redraw {
                redraw_ops(v2)
            } else {
                seq![ScreenAction::PutChar(c, x as u8, y as u8)] + match cursor_col(v2) {
                    Some(cx) => seq![ScreenAction::MoveCursor(cx as u8, y as u8)],
                    None => Seq::empty(),
                }
            },
        }
    };
    (v2, ops)
}

/// Showing the character `c` on the terminal: a new line, an erase, a carriage
/// return, a tab (four spaces) or an ordinary character.
pub open spec fn provide_char_spec(v: VtView, c: u8) -> (VtView, Seq<ScreenAction>) {
    if c == 0x0a {
        let (v1, redraw) = line_feed_spec(VtView { cur_char: 0, ..v });
        (
            v1,
            if !v.active {
                Seq::empty()
            } else if redraw {
                redraw_ops(v1)
            } else {
                cursor_ops(v1)
            },
        )
    } else if c == 0x08 || c == 0x7f {
        let x = if v.cur_char != 0 { v.cur_char - 1 } else { 0 };
        let v1 = VtView {
            lines: v.lines.update(v.cur_line, v.lines[v.cur_line].update(x, DEFAULT_CHAR)),
            cur_char: x,
            ..v
        };
        (v1, redraw_if_active(v1))
    } else if c == 0x0d {
        let v1 = VtView { cur_char: 0, ..v };
        (v1, redraw_if_active(v1))
    } else if c == 0x09 {
        let (v1, o1) = put_char_spec(v, 0x20);
        let (v2, o2) = put_char_spec(v1, 0x20);
        let (v3, o3) = put_char_spec(v2, 0x20);
        let (v4, o4) = put_char_spec(v3, 0x20);
        (v4, o1 + o2 + o3 + o4)
    } else {
        put_char_spec(v, c)
    }
}

/// Showing the bytes `s` one after the other.
pub open spec fn echo_spec(v: VtView, s: Seq<u8>) -> (VtView, Seq<ScreenAction>)
    decreases s.len(),
{
    if s.len() == 0 {
        (v, Seq::empty())
    } else {
        let (v1, o1) = echo_spec(v, s.subrange(0, s.len() - 1));
        let (v2, o2) = provide_char_spec(v1, s[s.len() - 1]);
        (v2, o1 + o2)
    }
}

/// Scrolling the view: down by one line unless the cursor line is at the top,
/// up by one line unless that would show the cleared lines after the cursor.
pub open spec fn scroll_spec(v: VtView, dir: ScrollDirection) -> (VtView, Seq<ScreenAction>) {
    match dir {
        ScrollDirection::DOWN => if v.view_line != v.cur_line {
            let v1 = VtView { view_line: next_line(v.view_line), ..v };
            (v1, redraw_if_active(v1))
        } else {
            (v, Seq::empty())
        },
        ScrollDirection::UP => {
            let next_view = (v.view_line + 149) % 150;
            if next_view == (v.cur_line + 25) % 150 {
                (v, Seq::empty())
            } else {
                let v1 = VtView { view_line: next_view, ..v };
                (v1, redraw_if_active(v1))
            }
        },
    }
}

/// A backspace (or delete) with the cursor past the first column moves the
/// cursor back one column and blanks exactly the cell it lands on: every other
/// cell of every line, the cursor's line and the view stay as they were.
pub proof fn lemma_backspace_erases_one(v: VtView, c: u8)
    requires
        vt_wf(v),
        v.cur_char > 0,
        c == 0x08 || c == 0x7f,
    ensures
        ({
            let w = provide_char_spec(v, c).0;
            &&& w.cur_char == v.cur_char - 1
            &&& w.cur_line == v.cur_line
            &&& w.view_line == v.view_line
            &&& w.active == v.active
            &&& w.lines.len() == v.lines.len()
            &&& w.lines[v.cur_line][v.cur_char - 1] == DEFAULT_CHAR
            &&& w.lines[v.cur_line].len() == 80
            &&& forall|j: int|
                0 <= j < 80 && j != v.cur_char - 1 ==> w.lines[v.cur_line][j] == v.lines[v.cur_line][j]
            &&& forall|i: int| 0 <= i < 150 && i != v.cur_line ==> w.lines[i] == v.lines[i]
        }),
{
}

/// Typing an ordinary character where the cursor is on a blank cell before
/// the end of the line, and then a backspace, gives back the terminal as it
/// was: the same lines, cursor and view.
pub proof fn lemma_type_then_erase(v: VtView, c: u8)
    requires
        vt_wf(v),
        v.cur_char < 80,
        v.lines[v.cur_line][v.cur_char] == DEFAULT_CHAR,
        c != 0x0a && c != 0x08 && c != 0x7f && c != 0x0d && c != 0x09,
    ensures
        provide_char_spec(provide_char_spec(v, c).0, 0x08).0 == v,
{
    let w = provide_char_spec(v, c).0;
    let u = provide_char_spec(w, 0x08).0;
    assert(w.cur_char == v.cur_char + 1);
    assert(u.lines[v.cur_line] =~= v.lines[v.cur_line]);
    assert(u.lines =~= v.lines);
}

/// Scrolling up, where it moves the view, moves it one line back in the
/// history ring; where the line it moves to is not the cursor's, scrolling
/// down then brings the view back to where it was.
pub proof fn lemma_scroll_up_down(v: VtView)
    requires
        vt_wf(v),
    ensures
        ({
            let up = scroll_spec(v, ScrollDirection::UP).0;
            &&& up.view_line == v.view_line || up.view_line == if v.view_line == 0 {
                149
            } else {
                v.view_line - 1
            }
            &&& up.lines == v.lines && up.cur_line == v.cur_line && up.cur_char == v.cur_char
            &&& (up.view_line != v.view_line && up.view_line != v.cur_line) ==> scroll_spec(
                up,
                ScrollDirection::DOWN,
            ).0 == v
        }),
{
}

/// A well-formed terminal state.
pub open spec fn vt_wf(v: VtView) -> bool {
    &&& v.lines.len() == 150
    &&& forall|i: int| 0 <= i < 150 ==> (#[trigger] v.lines[i]).len() == 80
    &&& 0 <= v.cur_line < 150
    &&& 0 <= v.view_line < 150
    &&& 0 <= v.cur_char <= 80
}

/// A virtual terminal.
pub struct VirtualTerminal {
    buf: Vec<u8>,
    cur_line: usize,
    cur_char: usize,
    view_line: usize,
    active: bool,
    pending: Vec<ScreenOp>,
}

impl VirtualTerminal {
    /// The terminal's state.
    pub closed spec fn state(&self) -> VtView {
        VtView {
            lines: Seq::new(150, |i: int| self.buf@.subrange(i * 80, i * 80 + 80)),
            cur_line: self.cur_line as int,
            cur_char: self.cur_char as int,
            view_line: self.view_line as int,
            active: self.active,
        }
    }

    /// The screen operations not yet carried out.
    pub closed spec fn pending(&self) -> Seq<ScreenAction> {
        ops_view(self.pending@)
    }

    pub closed spec fn buf_ok(&self) -> bool {
        &&& self.buf@.len() == 12000
        &&& self.cur_line < 150
        &&& self.view_line < 150
        &&& self.cur_char <= 80
    }

    /// A new inactive terminal with an empty history and the cursor at the top.
    pub fn create() -> (r: VirtualTerminal)
        ensures
            r.wf(),
            r.state().lines == Seq::new(150, |i: int| blank_line()),
            r.state().cur_line == 0,
            r.state().cur_char == 0,
            r.state().view_line == 0,
            !r.state().active,
            r.pending() == Seq::<ScreenAction>::empty(),
    {
        let mut buf: Vec<u8> = Vec::new();
        while buf.len() < 12000
            invariant
                buf@.len() <= 12000,
                forall|i: int| 0 <= i < buf@.len() ==> buf@[i] == DEFAULT_CHAR,
            decreases 12000 - buf.len(),
        {
            buf.push(DEFAULT_CHAR);
        }
        let r = VirtualTerminal {
            buf,
            cur_line: 0,
            cur_char: 0,
            view_line: 0,
            active: false,
            pending: Vec::new(),
        };
        assert(r.state().lines =~= Seq::new(150, |i: int| blank_line())) by {
            assert forall|i: int| 0 <= i < 150 implies r.state().lines[i] == blank_line() by {
                assert(r.buf@.subrange(i * 80, i * 80 + 80) =~= blank_line());
            }
        }
        assert(r.pending() =~= Seq::<ScreenAction>::empty());
        r
    }

    /// Hand over the pending screen operations, in order, and forget them.
    pub fn take_pending(&mut self) -> (r: Vec<ScreenOp>)
        requires
            old(self).wf(),
        ensures
            final(self).wf(),
            ops_view(r@) == old(self).pending(),
            final(self).pending() == Seq::<ScreenAction>::empty(),
            final(self).state() == old(self).state(),
    {
        let mut r: Vec<ScreenOp> = Vec::new();
        std::mem::swap(&mut r, &mut self.pending);
        assert(self.pending() =~= Seq::<ScreenAction>::empty());
        r
    }

    /// Line `l` of the history as a vector.
    fn line_vec(&self, l: usize) -> (r: Vec<u8>)
        requires
            self.wf(),
            l < 150,
        ensures
            r@ == self.state().lines[l as int],
    {
        let mut v: Vec<u8> = Vec::new();
        let base = l * 80;
        let mut i: usize = 0;
        while i < 80
            invariant
                self.wf(),
                l < 150,
                base == l * 80,
                i <= 80,
                v@ == self.buf@.subrange(base as int, base + i),
            decreases 80 - i,
        {
            v.push(self.buf[base + i]);
            assert(v@ =~= self.buf@.subrange(base as int, base + i + 1));
            i = i + 1;
        }
        v
    }

    /// Append `op` to the pending operations.
    fn emit(&mut self, op: ScreenOp)
        requires
            old(self).wf(),
        ensures
            final(self).wf(),
            final(self).pending() == old(self).pending().push(op.view()),
            final(self).state() == old(self).state(),
    {
        self.pending.push(op);
        assert(self.pending() =~= old(self).pending().push(op.view()));
    }

    /// Store `c` in column `x` of history line `l`.
    fn set_cell(&mut self, l: usize, x: usize, c: u8)
        requires
            old(self).wf(),
            l < 150,
            x < 80,
        ensures
            final(self).wf(),
            final(self).state() == (VtView {
                lines: old(self).state().lines.update(
                    l as int,
                    old(self).state().lines[l as int].update(x as int, c),
                ),
                ..old(self).state()
            }),
            final(self).pending() == old(self).pending(),
    {
        let ghost s0 = self.state();
        self.buf.set(l * 80 + x, c);
        proof {
            let s1 = self.state();
            let want = s0.lines.update(l as int, s0.lines[l as int].update(x as int, c));
            assert forall|i: int| 0 <= i < 150 implies s1.lines[i] =~= want[i] by {
                if i != l {
                    assert forall|j: int| 0 <= j < 80 implies s1.lines[i][j] == want[i][j] by {
                        assert(self.buf@[i * 80 + j] == old(self).buf@[i * 80 + j]);
                    }
                }
            }
            assert(s1.lines =~= want);
        }
    }

    /// Clear history line `l`.
    fn clear_line(&mut self, l: usize)
        requires
            old(self).wf(),
            l < 150,
        ensures
            final(self).wf(),
            final(self).state() == (VtView {
                lines: old(self).state().lines.update(l as int, blank_line()),
                ..old(self).state()
            }),
            final(self).pending() == old(self).pending(),
    {
        let ghost s0 = self.state();
        let mut i: usize = 0;
        while i < 80
            invariant
                self.wf(),
                l < 150,
                i <= 80,
                self.pending() == old(self).pending(),
                self.cur_line == old(self).cur_line,
                self.cur_char == old(self).cur_char,
                self.view_line == old(self).view_line,
                self.active == old(self).active,
                forall|k: int| 0 <= k < 12000 && !(l * 80 <= k < l * 80 + i) ==> self.buf@[k]
                    == old(self).buf@[k],
                forall|k: int| l * 80 <= k < l * 80 + i ==> self.buf@[k] == DEFAULT_CHAR,
            decreases 80 - i,
        {
            self.buf.set(l * 80 + i, DEFAULT_CHAR);
            i = i + 1;
        }
        proof {
            let s1 = self.state();
            let want = s0.lines.update(l as int, blank_line());
            assert forall|a: int| 0 <= a < 150 implies s1.lines[a] =~= want[a] by {
                assert forall|j: int| 0 <= j < 80 implies s1.lines[a][j] == want[a][j] by {
                    assert(self.buf@[a * 80 + j] == s1.lines[a][j]);
                }
            }
            assert(s1.lines =~= want);
        }
    }

    /// Whether the cursor is on the bottom screen row.
    fn cursor_at_bottom(&self) -> (r: bool)
        requires
            self.wf(),
        ensures
            r == at_bottom(self.state()),
    {
        (self.view_line + (UINT_DISPLAY_HEIGHT - 1)) % HISTORY_LINES == self.cur_line
    }

    /// A line feed; returns whether everything must be redrawn.
    fn line_feed(&mut self) -> (r: bool)
        requires
            old(self).wf(),
        ensures
            final(self).wf(),
            (final(self).state(), r) == line_feed_spec(old(self).state()),
            final(self).pending() == old(self).pending(),
    {
        let redraw = self.cursor_at_bottom();
        if redraw {
            self.view_line = (self.view_line + 1) % HISTORY_LINES;
        }
        self.cur_line = (self.cur_line + 1) % HISTORY_LINES;
        let l = (self.cur_line + UINT_DISPLAY_HEIGHT) % HISTORY_LINES;
        self.clear_line(l);
        redraw
    }

    /// The screen row of the cursor, if it is on screen.
    fn get_line_y(&self) -> (r: Option<usize>)
        requires
            self.wf(),
        ensures
            match (r, line_y(self.state())) {
                (Some(a), Some(b)) => a == b,
                (None, None) => true,
                _ => false,
            },
    {
        let yval = if self.cur_line < self.view_line {
            (self.cur_line + HISTORY_LINES) - self.view_line
        } else {
            self.cur_line - self.view_line
        };
        if yval >= UINT_DISPLAY_HEIGHT {
            None
        } else {
            Some(yval)
        }
    }

    /// The screen column of the cursor, unless it is past the last column.
    fn cursor_x(&self) -> (r: Option<u8>)
        requires
            self.wf(),
        ensures
            match (r, cursor_col(self.state())) {
                (Some(a), Some(b)) => a == b,
                (None, None) => true,
                _ => false,
            },
    {
        if self.cur_char == UINT_DISPLAY_WIDTH {
            None
        } else {
            Some(self.cur_char as u8)
        }
    }

    /// Append the cursor move to the pending operations, when it is on screen.
    fn emit_cursor(&mut self)
        requires
            old(self).wf(),
        ensures
            final(self).wf(),
            final(self).pending() == old(self).pending() + cursor_ops(old(self).state()),
            final(self).state() == old(self).state(),
    {
        if let Some(y) = self.get_line_y() {
            if let Some(x) = self.cursor_x() {
                self.emit(ScreenOp::MoveCursor { x, y: y as u8 });
                return;
            }
        }
        assert(old(self).pending() + cursor_ops(old(self).state()) =~= old(self).pending());
    }

    /// Append the operations that redraw the whole screen.
    fn emit_redraw(&mut self)
        requires
            old(self).wf(),
        ensures
            final(self).wf(),
            final(self).pending() == old(self).pending() + redraw_ops(old(self).state()),
            final(self).state() == old(self).state(),
    {
        let ghost s = self.state();
        let ghost p0 = self.pending();
        let mut y: usize = 0;
        while y < UINT_DISPLAY_HEIGHT
            invariant
                self.wf(),
                self.state() == s,
                y <= 25,
                self.pending() == p0 + Seq::new(
                    y as nat,
                    |k: int| ScreenAction::PutLine(k as u8, s.lines[(s.view_line + k) % 150]),
                ),
            decreases 25 - y,
        {
            let l = (self.view_line + y) % HISTORY_LINES;
            let line = self.line_vec(l);
            self.emit(ScreenOp::PutLine { row: y as u8, line });
            assert(self.pending() =~= p0 + Seq::new(
                (y + 1) as nat,
                |k: int| ScreenAction::PutLine(k as u8, s.lines[(s.view_line + k) % 150]),
            ));
            y = y + 1;
        }
        self.emit_cursor();
        assert(self.pending() =~= p0 + redraw_ops(s));
    }

    /// Show an ordinary character.
    fn put_char(&mut self, chr: u8)
        requires
            old(self).wf(),
        ensures
            final(self).wf(),
            final(self).state() == put_char_spec(old(self).state(), chr).0,
            final(self).pending() == old(self).pending() + put_char_spec(old(self).state(), chr).1,
    {
        let ghost p0 = self.pending();
        let need_redraw = if self.cur_char == UINT_DISPLAY_WIDTH {
            self.cur_char = 0;
            self.line_feed()
        } else {
            false
        };
        let x = self.cur_char;
        let l = self.cur_line;
        self.set_cell(l, x, chr);
        self.cur_char = x + 1;
        assert(self.pending() == p0);
        if self.active {
            if let Some(y) = self.get_line_y() {
                if need_redraw {
                    self.emit_redraw();
                } else {
                    self.emit(ScreenOp::PutChar { c: chr, x: x as u8, y: y as u8 });
                    if let Some(cx) = self.cursor_x() {
                        self.emit(ScreenOp::MoveCursor { x: cx, y: y as u8 });
                    }
                }
            }
        }
        let ghost (want_state, want_ops) = put_char_spec(old(self).state(), chr);
        assert(self.state() =~= want_state);
        assert(self.pending() =~= p0 + want_ops);
    }
}

impl TTYDriver for VirtualTerminal {
    open spec fn wf(&self) -> bool {
        self.buf_ok() && vt_wf(self.state())
    }

    /// Show `chr` on the terminal.
    fn provide_char(&mut self, chr: u8)
        ensures
            final(self).state() == provide_char_spec(old(self).state(), chr).0,
            final(self).pending() == old(self).pending() + provide_char_spec(old(self).state(), chr).1,
    {
        let ghost s0 = self.state();
        let ghost p0 = self.pending();
        if chr == 0x0a {
            self.cur_char = 0;
            if self.active {
                if self.line_feed() {
                    self.emit_redraw();
                } else {
                    self.emit_cursor();
                }
            } else {
                self.line_feed();
                assert(self.pending() =~= p0 + Seq::<ScreenAction>::empty());
            }
        } else if chr == 0x08 || chr == 0x7f {
            if self.cur_char != 0 {
                self.cur_char = self.cur_char - 1;
            }
            let l = self.cur_line;
            let x = self.cur_char;
            self.set_cell(l, x, DEFAULT_CHAR);
            if self.active {
                self.emit_redraw();
            } else {
                assert(self.pending() =~= p0 + Seq::<ScreenAction>::empty());
            }
        } else if chr == 0x0d {
            self.cur_char = 0;
            if self.active {
                self.emit_redraw();
            } else {
                assert(self.pending() =~= p0 + Seq::<ScreenAction>::empty());
            }
        } else if chr == 0x09 {
            self.put_char(0x20);
            self.put_char(0x20);
            self.put_char(0x20);
            self.put_char(0x20);
            let ghost (v1, o1) = put_char_spec(s0, 0x20);
            let ghost (v2, o2) = put_char_spec(v1, 0x20);
            let ghost (v3, o3) = put_char_spec(v2, 0x20);
            let ghost (v4, o4) = put_char_spec(v3, 0x20);
            assert(self.pending() =~= p0 + (o1 + o2 + o3 + o4));
        } else {
            self.put_char(chr);
        }
        assert(self.state() =~= provide_char_spec(s0, chr).0);
    }

    /// Show the bytes of `s` one after the other.
    fn echo(&mut self, s: &[u8])
        ensures
            final(self).state() == echo_spec(old(self).state(), s@).0,
            final(self).pending() == old(self).pending() + echo_spec(old(self).state(), s@).1,
    {
        let ghost s0 = self.state();
        let ghost p0 = self.pending();
        let mut i: usize = 0;
        while i < s.len()
            invariant
                self.wf(),
                i <= s@.len(),
                self.state() == echo_spec(s0, s@.subrange(0, i as int)).0,
                self.pending() == p0 + echo_spec(s0, s@.subrange(0, i as int)).1,
            decreases s@.len() - i,
        {
            self.provide_char(s[i]);
            proof {
                let t = s@.subrange(0, i + 1);
                assert(t.subrange(0, i as int) =~= s@.subrange(0, i as int));
                let (v1, o1) = echo_spec(s0, s@.subrange(0, i as int));
                let (v2, o2) = provide_char_spec(v1, s@[i as int]);
                assert(echo_spec(s0, t) == (v2, o1 + o2));
                assert(self.pending() =~= p0 + (o1 + o2));
            }
            i = i + 1;
        }
        assert(s@.subrange(0, s@.len() as int) =~= s@);
    }

    /// Scroll the view one line.
    fn scroll(&mut self, dir: ScrollDirection)
        ensures
            final(self).state() == scroll_spec(old(self).state(), dir).0,
            final(self).pending() == old(self).pending() + scroll_spec(old(self).state(), dir).1,
    {
        let ghost p0 = self.pending();
        match dir {
            ScrollDirection::DOWN => {
                if self.view_line != self.cur_line {
                    self.view_line = (self.view_line + 1) % HISTORY_LINES;
                } else {
                    assert(self.pending() =~= p0 + Seq::<ScreenAction>::empty());
                    return;
                }
            },
            ScrollDirection::UP => {
                let next_view = ((self.view_line + HISTORY_LINES) - 1) % HISTORY_LINES;
                if next_view == (self.cur_line + UINT_DISPLAY_HEIGHT) % HISTORY_LINES {
                    assert(self.pending() =~= p0 + Seq::<ScreenAction>::empty());
                    return;
                } else {
                    self.view_line = next_view;
                }
            },
        }
        if self.active {
            self.emit_redraw();
        } else {
            assert(self.pending() =~= p0 + Seq::<ScreenAction>::empty());
        }
    }

    /// Redraw the whole screen.
    fn redraw(&mut self)
        ensures
            final(self).state() == old(self).state(),
            final(self).pending() == old(self).pending() + redraw_ops(old(self).state()),
    {
        self.emit_redraw();
    }

    /// Draw the screen, then draw from now on.
    fn set_active(&mut self)
        ensures
            final(self).state() == (VtView { active: true, ..old(self).state() }),
            final(self).pending() == old(self).pending() + redraw_ops(old(self).state()),
    {
        self.emit_redraw();
        self.active = true;
    }

    /// Stop drawing.
    fn set_inactive(&mut self)
        ensures
            final(self).state() == (VtView { active: false, ..old(self).state() }),
            final(self).pending() == old(self).pending(),
    {
        self.active = false;
    }
}

} // verus!

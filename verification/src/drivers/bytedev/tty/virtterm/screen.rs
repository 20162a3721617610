//! The text screen: its size and the drawing operations a terminal asks of it.
use vstd::prelude::*;

verus! {

/// The character of an empty screen cell.
pub const DEFAULT_CHAR: u8 = 0x20;

/// Rows on the screen.
pub const UINT_DISPLAY_HEIGHT: usize = 25;

/// Columns on the screen.
pub const UINT_DISPLAY_WIDTH: usize = 80;

/// Rows on the screen.
pub const DISPLAY_HEIGHT: u8 = 25;

/// Columns on the screen.
pub const DISPLAY_WIDTH: u8 = 80;

/// First initialisation stage: nothing to do.
pub fn init_stage1() {
}

/// The index in video memory of the cell in column `x` of row `y`.
pub fn xy_to_offset(x: u8, y: u8) -> (r: usize)
    ensures
        r == y as int * 80 + x as int,
{
    (y as usize) * UINT_DISPLAY_WIDTH + (x as usize)
}

/// A drawing operation on the screen.
pub enum ScreenOp {
    /// Show character `c` in column `x` of row `y`.
    PutChar { c: u8, x: u8, y: u8 },
    /// Move the cursor to column `x` of row `y`.
    MoveCursor { x: u8, y: u8 },
    /// Show `line` (one screen width of characters) in row `row`.
    PutLine { row: u8, line: Vec<u8> },
}

/// A drawing operation as a mathematical value.
pub enum ScreenAction {
    PutChar(u8, u8, u8),
    MoveCursor(u8, u8),
    PutLine(u8, Seq<u8>),
}

impl ScreenOp {
    pub open spec fn view(&self) -> ScreenAction {
        match self {
            ScreenOp::PutChar { c, x, y } => ScreenAction::PutChar(*c, *x, *y),
            ScreenOp::MoveCursor { x, y } => ScreenAction::MoveCursor(*x, *y),
            ScreenOp::PutLine { row, line } => ScreenAction::PutLine(*row, line@),
        }
    }
}

/// The operations of a list of screen operations, as values.
pub open spec fn ops_view(ops: Seq<ScreenOp>) -> Seq<ScreenAction> {
    Seq::new(ops.len(), |i: int| ops[i].view())
}

/// Physical address of the text-mode video memory.
pub const VIDEO_RAM: usize = 0xb8000;

/// Port that selects a CRT controller register.
pub const CRT_CONTROL_ADDR: u16 = 0x3d4;

/// Port of the selected CRT controller register's data.
pub const CRT_CONTROL_DATA: u16 = 0x3d5;

/// CRT controller register: high byte of the cursor position.
pub const CURSOR_HIGH: u8 = 0x0e;

/// CRT controller register: low byte of the cursor position.
pub const CURSOR_LOW: u8 = 0x0f;

/// The attribute of a cell: white on black.
pub const DEFAULT_ATTR: u8 = 0x0f;

/// The number of cells on the screen.
pub const NUM_CELLS: usize = 2000;

/// A cell of video memory: the character in the low byte, the attribute in
/// the high byte.
pub open spec fn cell(c: u8, attr: u8) -> u16 {
    (c as int + attr as int * 256) as u16
}

/// The video memory of the screen and the cursor position, as the CRT
/// controller holds it.
pub struct Screen {
    ram: Vec<u16>,
    cursor: u16,
}

/// Whether a drawing operation stays on the screen.
pub open spec fn action_ok(a: ScreenAction) -> bool {
    match a {
        ScreenAction::PutChar(c, x, y) => x < DISPLAY_WIDTH && y < DISPLAY_HEIGHT,
        ScreenAction::MoveCursor(x, y) => x < DISPLAY_WIDTH && y < DISPLAY_HEIGHT,
        ScreenAction::PutLine(row, line) => row < DISPLAY_HEIGHT && line.len() == UINT_DISPLAY_WIDTH,
    }
}

/// `cells` with row `y` showing `line`.
pub open spec fn with_line(cells: Seq<u16>, y: int, line: Seq<u8>) -> Seq<u16> {
    Seq::new(
        cells.len(),
        |i: int|
            if y * 80 <= i < y * 80 + 80 {
                cell(line[i - y * 80], DEFAULT_ATTR)
            } else {
                cells[i]
            },
    )
}

impl Screen {
    /// The cells, row after row.
    pub closed spec fn cells(&self) -> Seq<u16> {
        self.ram@
    }

    /// The cursor position: its row times the width plus its column.
    pub closed spec fn cursor(&self) -> u16 {
        self.cursor
    }

    /// There is a cell for each place on the screen.
    pub open spec fn wf(&self) -> bool {
        self.cells().len() == NUM_CELLS
    }

    /// The cells, row after row, to copy to video memory.
    pub fn ram(&self) -> (r: &Vec<u16>)
        ensures
            r@ == self.cells(),
    {
        &self.ram
    }

    /// A blank screen with the cursor in the top left corner.
    pub fn new() -> (r: Screen)
        ensures
            r.wf(),
            r.cursor() == 0,
            forall|i: int| 0 <= i < NUM_CELLS ==> r.cells()[i] == cell(DEFAULT_CHAR, DEFAULT_ATTR),
    {
        let mut ram: Vec<u16> = Vec::new();
        let blank = cell_value(DEFAULT_CHAR, DEFAULT_ATTR);
        while ram.len() < NUM_CELLS
            invariant
                ram@.len() <= NUM_CELLS,
                blank == cell(DEFAULT_CHAR, DEFAULT_ATTR),
                forall|i: int| 0 <= i < ram@.len() ==> ram@[i] == blank,
            decreases NUM_CELLS - ram@.len(),
        {
            ram.push(blank);
        }
        Screen { ram, cursor: 0 }
    }

    /// Move the cursor to column `x` of row `y`. Returns the bytes to write
    /// to the cursor-high and cursor-low registers.
    pub fn move_cursor(&mut self, x: u8, y: u8) -> (r: (u8, u8))
        requires
            x < DISPLAY_WIDTH,
            y < DISPLAY_HEIGHT,
        ensures
            final(self).cells() == old(self).cells(),
            final(self).cursor() == y as int * 80 + x as int,
            r.0 == final(self).cursor() / 256,
            r.1 == final(self).cursor() % 256,
    {
        let pos: u16 = (y as u16) * 80u16 + (x as u16);
        self.cursor = pos;
        assert((pos >> 8u16) == pos / 256) by (bit_vector);
        assert((pos & 0xffu16) == pos % 256) by (bit_vector);
        ((pos >> 8u16) as u8, (pos & 0xff) as u8)
    }

    /// Show `c` with attribute `attrib` in column `x` of row `y`.
    pub fn put_char_with_attr(&mut self, c: u8, x: u8, y: u8, attrib: u8)
        requires
            old(self).wf(),
            x < DISPLAY_WIDTH,
            y < DISPLAY_HEIGHT,
        ensures
            final(self).wf(),
            final(self).cursor() == old(self).cursor(),
            final(self).cells() == old(self).cells().update(y as int * 80 + x as int, cell(c, attrib)),
    {
        let v = cell_value(c, attrib);
        self.ram.set(xy_to_offset(x, y), v);
    }

    /// Show `c` in column `x` of row `y`.
    pub fn put_char(&mut self, c: u8, x: u8, y: u8)
        requires
            old(self).wf(),
            x < DISPLAY_WIDTH,
            y < DISPLAY_HEIGHT,
        ensures
            final(self).wf(),
            final(self).cursor() == old(self).cursor(),
            final(self).cells() == old(self).cells().update(
                y as int * 80 + x as int,
                cell(c, DEFAULT_ATTR),
            ),
    {
        self.put_char_with_attr(c, x, y, DEFAULT_ATTR)
    }

    /// Show `l` in row `off`.
    pub fn put_line(&mut self, l: &[u8], off: u8)
        requires
            old(self).wf(),
            l@.len() == UINT_DISPLAY_WIDTH,
            off < DISPLAY_HEIGHT,
        ensures
            final(self).wf(),
            final(self).cursor() == old(self).cursor(),
            final(self).cells() == with_line(old(self).cells(), off as int, l@),
    {
        let mut x: u8 = 0;
        while x < DISPLAY_WIDTH
            invariant
                self.wf(),
                x <= DISPLAY_WIDTH,
                off < DISPLAY_HEIGHT,
                l@.len() == UINT_DISPLAY_WIDTH,
                self.cursor() == old(self).cursor(),
                self.cells() == Seq::new(
                    old(self).cells().len(),
                    |i: int|
                        if off * 80 <= i < off * 80 + x {
                            cell(l@[i - off * 80], DEFAULT_ATTR)
                        } else {
                            old(self).cells()[i]
                        },
                ),
            decreases DISPLAY_WIDTH - x,
        {
            self.put_char(l[x as usize], x, off);
            x = x + 1;
            proof {
                assert(self.cells() =~= Seq::new(
                    old(self).cells().len(),
                    |i: int|
                        if off * 80 <= i < off * 80 + x {
                            cell(l@[i - off * 80], DEFAULT_ATTR)
                        } else {
                            old(self).cells()[i]
                        },
                ));
            }
        }
        proof {
            assert(self.cells() =~= with_line(old(self).cells(), off as int, l@));
        }
    }

    /// Show `lines` in the rows from `start` on.
    pub fn put_lines(&mut self, lines: &Vec<Vec<u8>>, start: u8)
        requires
            old(self).wf(),
            start as int + lines@.len() <= UINT_DISPLAY_HEIGHT,
            forall|i: int| 0 <= i < lines@.len() ==> (#[trigger] lines@[i])@.len() == UINT_DISPLAY_WIDTH,
        ensures
            final(self).wf(),
            final(self).cursor() == old(self).cursor(),
            forall|i: int|
                0 <= i < NUM_CELLS ==> final(self).cells()[i] == if start * 80 <= i < (start
                    + lines@.len()) * 80 {
                    cell(lines@[(i / 80) - start]@[i % 80], DEFAULT_ATTR)
                } else {
                    old(self).cells()[i]
                },
    {
        let mut k: usize = 0;
        let mut row = start;
        while k < lines.len()
            invariant
                self.wf(),
                k <= lines@.len(),
                row == start + k,
                start as int + lines@.len() <= UINT_DISPLAY_HEIGHT,
                forall|i: int| 0 <= i < lines@.len() ==> (#[trigger] lines@[i])@.len() == UINT_DISPLAY_WIDTH,
                self.cursor() == old(self).cursor(),
                forall|i: int|
                    0 <= i < NUM_CELLS ==> self.cells()[i] == if start * 80 <= i < (start + k) * 80 {
                        cell(lines@[(i / 80) - start]@[i % 80], DEFAULT_ATTR)
                    } else {
                        old(self).cells()[i]
                    },
            decreases lines@.len() - k,
        {
            let ghost before = self.cells();
            self.put_line(lines[k].as_slice(), row);
            proof {
                assert forall|i: int| 0 <= i < NUM_CELLS implies self.cells()[i] == if start * 80 <= i
                    < (start + k + 1) * 80 {
                    cell(lines@[(i / 80) - start]@[i % 80], DEFAULT_ATTR)
                } else {
                    old(self).cells()[i]
                } by {
                    if row * 80 <= i < row * 80 + 80 {
                        assert(i / 80 == row as int) by (nonlinear_arith)
                            requires
                                row * 80 <= i < row * 80 + 80,
                        ;
                        assert(i % 80 == i - row * 80) by (nonlinear_arith)
                            requires
                                row * 80 <= i < row * 80 + 80,
                        ;
                    }
                }
            }
            k = k + 1;
            row = row + 1;
        }
    }

    /// Draw a whole screen of text: row `y` of `buf` on row `y`.
    pub fn put_buf(&mut self, buf: &Vec<Vec<u8>>)
        requires
            old(self).wf(),
            buf@.len() == UINT_DISPLAY_HEIGHT,
            forall|i: int| 0 <= i < buf@.len() ==> (#[trigger] buf@[i])@.len() == UINT_DISPLAY_WIDTH,
        ensures
            final(self).wf(),
            final(self).cursor() == old(self).cursor(),
            forall|i: int|
                0 <= i < NUM_CELLS ==> final(self).cells()[i] == cell(buf@[i / 80]@[i % 80], DEFAULT_ATTR),
    {
        self.put_lines(buf, 0);
    }

    /// Blank the whole screen.
    pub fn clear(&mut self)
        requires
            old(self).wf(),
        ensures
            final(self).wf(),
            final(self).cursor() == old(self).cursor(),
            forall|i: int| 0 <= i < NUM_CELLS ==> final(self).cells()[i] == cell(DEFAULT_CHAR, DEFAULT_ATTR),
    {
        let blank = cell_value(DEFAULT_CHAR, DEFAULT_ATTR);
        let mut i: usize = 0;
        while i < NUM_CELLS
            invariant
                self.wf(),
                i <= NUM_CELLS,
                blank == cell(DEFAULT_CHAR, DEFAULT_ATTR),
                self.cursor() == old(self).cursor(),
                forall|j: int| 0 <= j < i ==> self.cells()[j] == blank,
            decreases NUM_CELLS - i,
        {
            self.ram.set(i, blank);
            i = i + 1;
        }
    }

    /// Carry out a drawing operation of a terminal. Returns the bytes for the
    /// cursor registers where it moved the cursor.
    pub fn apply(&mut self, op: &ScreenOp) -> (r: Option<(u8, u8)>)
        requires
            old(self).wf(),
            action_ok(op.view()),
        ensures
            final(self).wf(),
            match op.view() {
                ScreenAction::PutChar(c, x, y) => r is None && final(self).cursor() == old(self).cursor()
                    && final(self).cells() == old(self).cells().update(
                    y as int * 80 + x as int,
                    cell(c, DEFAULT_ATTR),
                ),
                ScreenAction::MoveCursor(x, y) => final(self).cells() == old(self).cells()
                    && final(self).cursor() == y as int * 80 + x as int && r == Some(
                    (
                        (final(self).cursor() / 256) as u8,
                        (final(self).cursor() % 256) as u8,
                    ),
                ),
                ScreenAction::PutLine(row, line) => r is None && final(self).cursor() == old(self).cursor() && final(self).cells() == with_line(old(self).cells(), row as int, line),
            },
    {
        match op {
            ScreenOp::PutChar { c, x, y } => {
                self.put_char(*c, *x, *y);
                None
            },
            ScreenOp::MoveCursor { x, y } => Some(self.move_cursor(*x, *y)),
            ScreenOp::PutLine { row, line } => {
                self.put_line(line.as_slice(), *row);
                None
            },
        }
    }
}

/// The cell of character `c` with attribute `attr`.
pub fn cell_value(c: u8, attr: u8) -> (r: u16)
    ensures
        r == cell(c, attr),
{
    let r = (c as u16) | ((attr as u16) << 8u16);
    assert(((c as u16) | ((attr as u16) << 8u16)) == (c as u16) + (attr as u16) * 256) by (bit_vector);
    r
}

} // verus!

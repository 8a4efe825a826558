//! An in-memory model of the fixed character-cell display. Every drawing
//! operation of the workspace lands here; a host may copy the grid to a real
//! device cell by cell.

use vstd::prelude::*;
use crate::SCREEN_HEIGHT;
use crate::SCREEN_WIDTH;

verus! {

/// One of the two shades the workspace draws with.
#[derive(Clone, Copy, PartialEq, Eq, Structural, Debug)]
pub enum Color {
    Black,
    White,
}

/// One character cell: an ASCII byte plus foreground and background shades.
#[derive(Clone, Copy, PartialEq, Eq, Structural, Debug)]
pub struct ScreenCell {
    pub ch: u8,
    pub fg: Color,
    pub bg: Color,
}

/// The cell an untouched screen position holds: a space drawn black on black.
pub open spec fn blank_cell() -> ScreenCell {
    ScreenCell { ch: 0x20, fg: Color::Black, bg: Color::Black }
}

/// The character grid, `SCREEN_HEIGHT` rows of `SCREEN_WIDTH` cells.
pub struct Screen {
    cells: Vec<Vec<ScreenCell>>,
}

impl Screen {
    /// The grid has exactly its advertised dimensions.
    pub closed spec fn wf(self) -> bool {
        &&& self.cells@.len() == SCREEN_HEIGHT
        &&& forall|r: int|
            0 <= r < self.cells@.len() ==> (#[trigger] self.cells@[r])@.len() == SCREEN_WIDTH
    }

    /// The cell at a row and column.
    pub closed spec fn cell(self, row: int, col: int) -> ScreenCell {
        self.cells@[row]@[col]
    }

    /// A fresh, entirely blank screen.
    pub fn new() -> (s: Screen)
        ensures
            s.wf(),
            forall|r: int, c: int|
                0 <= r < SCREEN_HEIGHT && 0 <= c < SCREEN_WIDTH ==> #[trigger] s.cell(r, c)
                    == blank_cell(),
    {
        let mut rows: Vec<Vec<ScreenCell>> = Vec::new();
        let mut r: usize = 0;
        while r < SCREEN_HEIGHT
            invariant
                r <= SCREEN_HEIGHT,
                rows@.len() == r,
                forall|i: int| 0 <= i < r ==> (#[trigger] rows@[i])@.len() == SCREEN_WIDTH,
                forall|i: int, j: int|
                    0 <= i < r && 0 <= j < SCREEN_WIDTH ==> #[trigger] rows@[i]@[j]
                        == blank_cell(),
            decreases SCREEN_HEIGHT - r,
        {
            let mut row: Vec<ScreenCell> = Vec::new();
            let mut c: usize = 0;
            while c < SCREEN_WIDTH
                invariant
                    c <= SCREEN_WIDTH,
                    row@.len() == c,
                    forall|j: int| 0 <= j < c ==> #[trigger] row@[j] == blank_cell(),
                decreases SCREEN_WIDTH - c,
            {
                row.push(ScreenCell { ch: 0x20, fg: Color::Black, bg: Color::Black });
                c += 1;
            }
            rows.push(row);
            r += 1;
        }
        Screen { cells: rows }
    }

    /// Reads one cell back.
    pub fn cell_at(&self, col: usize, row: usize) -> (c: ScreenCell)
        requires
            self.wf(),
            col < SCREEN_WIDTH,
            row < SCREEN_HEIGHT,
        ensures
            c == self.cell(row as int, col as int),
    {
        self.cells[row][col]
    }

    /// Writes one cell.
    pub fn plot(&mut self, ch: u8, col: usize, row: usize, fg: Color, bg: Color)
        requires
            old(self).wf(),
            col < SCREEN_WIDTH,
            row < SCREEN_HEIGHT,
        ensures
            final(self).wf(),
            final(self).cell(row as int, col as int) == (ScreenCell { ch, fg, bg }),
            forall|r: int, c: int|
                0 <= r < SCREEN_HEIGHT && 0 <= c < SCREEN_WIDTH && !(r == row && c == col)
                    ==> #[trigger] final(self).cell(r, c) == old(self).cell(r, c),
    {
        self.cells[row][col] = ScreenCell { ch, fg, bg };
    }

    /// Fills the columns `col_lo..col_hi` of one row with a single cell.
    pub fn fill_row(&mut self, col_lo: usize, col_hi: usize, row: usize, ch: u8, fg: Color, bg: Color)
        requires
            old(self).wf(),
            col_lo <= col_hi <= SCREEN_WIDTH,
            row < SCREEN_HEIGHT,
        ensures
            final(self).wf(),
            forall|c: int|
                col_lo <= c < col_hi ==> #[trigger] final(self).cell(row as int, c)
                    == (ScreenCell { ch, fg, bg }),
            forall|r: int, c: int|
                0 <= r < SCREEN_HEIGHT && 0 <= c < SCREEN_WIDTH && !(r == row && col_lo <= c
                    < col_hi) ==> #[trigger] final(self).cell(r, c) == old(self).cell(r, c),
    {
        let mut c: usize = col_lo;
        while c < col_hi
            invariant
                self.wf(),
                col_lo <= c <= col_hi <= SCREEN_WIDTH,
                row < SCREEN_HEIGHT,
                forall|i: int|
                    col_lo <= i < c ==> #[trigger] self.cell(row as int, i)
                        == (ScreenCell { ch, fg, bg }),
                forall|r: int, i: int|
                    0 <= r < SCREEN_HEIGHT && 0 <= i < SCREEN_WIDTH && !(r == row && col_lo <= i
                        < c) ==> #[trigger] self.cell(r, i) == old(self).cell(r, i),
            decreases col_hi - c,
        {
            self.plot(ch, c, row, fg, bg);
            c += 1;
        }
    }

    /// Writes a byte string left to right from a column, dropping whatever
    /// would fall past the right screen edge.
    pub fn plot_bytes(&mut self, s: &Vec<u8>, col: usize, row: usize, fg: Color, bg: Color)
        requires
            old(self).wf(),
            row < SCREEN_HEIGHT,
        ensures
            final(self).wf(),
            forall|i: int|
                0 <= i < s@.len() && col + i < SCREEN_WIDTH ==> #[trigger] final(self).cell(
                    row as int,
                    col + i,
                ) == (ScreenCell { ch: s@[i], fg, bg }),
            forall|r: int, c: int|
                0 <= r < SCREEN_HEIGHT && 0 <= c < SCREEN_WIDTH && !(r == row && col <= c < col
                    + s@.len()) ==> #[trigger] final(self).cell(r, c) == old(self).cell(r, c),
    {
        let mut i: usize = 0;
        while i < s.len()
            invariant
                self.wf(),
                i <= s@.len(),
                row < SCREEN_HEIGHT,
                forall|j: int|
                    0 <= j < i && col + j < SCREEN_WIDTH ==> #[trigger] self.cell(
                        row as int,
                        col + j,
                    ) == (ScreenCell { ch: s@[j], fg, bg }),
                forall|r: int, c: int|
                    0 <= r < SCREEN_HEIGHT && 0 <= c < SCREEN_WIDTH && !(r == row && col <= c < col
                        + i) ==> #[trigger] self.cell(r, c) == old(self).cell(r, c),
            decreases s@.len() - i,
        {
            if i < SCREEN_WIDTH && col < SCREEN_WIDTH - i {
                self.plot(s[i], col + i, row, fg, bg);
            }
            i += 1;
        }
    }
}

/// Every cell outside the given rectangle is the same on both screens.
pub open spec fn same_outside(
    a: Screen,
    b: Screen,
    row_lo: int,
    row_hi: int,
    col_lo: int,
    col_hi: int,
) -> bool {
    forall|r: int, c: int|
        0 <= r < SCREEN_HEIGHT && 0 <= c < SCREEN_WIDTH && !(row_lo <= r <= row_hi && col_lo <= c
            <= col_hi) ==> #[trigger] b.cell(r, c) == a.cell(r, c)
}

/// The decimal digits of a number, as ASCII bytes, most significant first.
pub open spec fn spec_decimal(n: nat) -> Seq<u8>
    decreases n,
{
    if n < 10 {
        seq![(0x30 + n) as u8]
    } else {
        spec_decimal(n / 10).push((0x30 + n % 10) as u8)
    }
}

/// Renders a number in decimal, most significant digit first.
pub fn decimal_bytes(n: usize) -> (v: Vec<u8>)
    ensures
        v@ == spec_decimal(n as nat),
    decreases n,
{
    if n < 10 {
        let mut v: Vec<u8> = Vec::new();
        v.push(0x30 + (n as u8));
        assert(v@ =~= spec_decimal(n as nat));
        v
    } else {
        let mut v: Vec<u8> = decimal_bytes(n / 10);
        v.push(0x30 + ((n % 10) as u8));
        assert(v@ =~= spec_decimal(n as nat));
        v
    }
}

} // verus!

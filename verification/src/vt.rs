//! What a terminal shows: cells with their text, colours and attributes, and
//! selections among them.

use vstd::prelude::*;

verus! {

/// A colour of a cell.
#[derive(Clone, Copy, Debug, PartialEq, Eq, Structural)]
pub enum Color {
    /// The theme's own colour.
    Default,
    Rgb(u8, u8, u8),
}

/// How a cell is drawn.
#[derive(Clone, Copy, Debug, PartialEq, Eq, Structural)]
pub struct CellAttributes {
    pub fg: Color,
    pub bg: Color,
    pub bold: bool,
    pub italic: bool,
    pub underline: bool,
    pub strikethrough: bool,
    pub dim: bool,
    pub inverse: bool,
}

/// One cell of a screen: its text, the one character by which it is drawn where
/// cells are drawn by single characters, and how it looks. An empty text stands
/// for a cell that was never written, or for the second half of a wide
/// character.
#[derive(Debug, PartialEq, Eq)]
pub struct Cell {
    pub grapheme: String,
    pub character: char,
    pub attrs: CellAttributes,
}

/// A cell as a mathematical value.
pub ghost struct CellModel {
    pub grapheme: Seq<char>,
    pub character: char,
    pub attrs: CellAttributes,
}

impl View for Cell {
    type V = CellModel;

    open spec fn view(&self) -> CellModel {
        CellModel { grapheme: self.grapheme@, character: self.character, attrs: self.attrs }
    }
}

/// The cells of a row.
pub open spec fn cells_model(cells: Seq<Cell>) -> Seq<CellModel> {
    Seq::new(cells.len(), |i: int| cells[i]@)
}

/// The rows of a screen or of a scrollback.
pub open spec fn rows_model(rows: Seq<Vec<Cell>>) -> Seq<Seq<CellModel>> {
    Seq::new(rows.len(), |i: int| cells_model(rows[i]@))
}

/// What a terminal shows at a moment.
#[derive(Debug, PartialEq, Eq)]
pub struct Screen {
    /// The cells, row by row.
    pub lines: Vec<Vec<Cell>>,
    /// The width of the screen. A row may hold fewer or more cells.
    pub width: usize,
    /// A count that grows with every change.
    pub generation: u64,
    /// For every row the count at its last change.
    pub row_generations: Vec<u64>,
}

/// A screen as a mathematical value.
pub ghost struct ScreenModel {
    pub lines: Seq<Seq<CellModel>>,
    pub cols: nat,
    pub generation: u64,
    pub row_generations: Seq<u64>,
}

impl View for Screen {
    type V = ScreenModel;

    open spec fn view(&self) -> ScreenModel {
        ScreenModel {
            lines: rows_model(self.lines@),
            cols: self.width as nat,
            generation: self.generation,
            row_generations: self.row_generations@,
        }
    }
}

impl Screen {
    /// The number of rows.
    pub fn rows(&self) -> (n: usize)
        ensures
            n == self@.lines.len(),
            n == self.lines.len(),
    {
        self.lines.len()
    }

    /// The number of columns.
    pub fn cols(&self) -> (n: usize)
        ensures
            n == self@.cols,
            n == self.width,
    {
        self.width
    }

    /// The cells of a row.
    pub fn row(&self, r: usize) -> (cells: &Vec<Cell>)
        requires
            r < self@.lines.len(),
        ensures
            cells_model(cells@) == self@.lines[r as int],
            *cells == self.lines[r as int],
    {
        &self.lines[r]
    }

    /// The count of changes.
    pub fn generation(&self) -> (g: u64)
        ensures
            g == self@.generation,
    {
        self.generation
    }

    /// Whether a row has changed since the count was `since`. A row of which
    /// no count is kept counts as changed.
    pub fn row_dirty_since(&self, row: usize, since: u64) -> (dirty: bool)
        ensures
            dirty == row_changed(self@, row as int, since),
    {
        if row < self.row_generations.len() {
            self.row_generations[row] > since
        } else {
            true
        }
    }
}

/// Whether a row has changed since the count was `since`.
pub open spec fn row_changed(m: ScreenModel, row: int, since: u64) -> bool {
    row >= m.row_generations.len() || m.row_generations[row] > since
}

/// How a selection takes in cells.
#[derive(Clone, Copy, Debug, PartialEq, Eq, Structural)]
pub enum SelectionMode {
    /// From one cell to another, in reading order.
    Normal,
    /// The same, by whole words.
    Word,
    /// Whole rows.
    Line,
    /// A rectangle.
    Block,
}

/// A selection, in rows counted from the start of the scrollback.
#[derive(Clone, Copy, Debug, PartialEq, Eq)]
pub struct Selection {
    /// Where it began, row and column.
    pub start: (usize, usize),
    /// Where it is now.
    pub end: (usize, usize),
    pub mode: SelectionMode,
}

/// Whether a cell comes no later than another in reading order.
pub open spec fn not_after(a: (usize, usize), b: (usize, usize)) -> bool {
    a.0 < b.0 || (a.0 == b.0 && a.1 <= b.1)
}

/// The two ends of a selection in reading order.
pub open spec fn ordered_ends(sel: Selection) -> ((usize, usize), (usize, usize)) {
    if not_after(sel.start, sel.end) {
        (sel.start, sel.end)
    } else {
        (sel.end, sel.start)
    }
}

impl Selection {
    /// A selection of one cell.
    pub fn new(row: usize, col: usize, mode: SelectionMode) -> (s: Selection)
        ensures
            s == (Selection { start: (row, col), end: (row, col), mode }),
    {
        Selection { start: (row, col), end: (row, col), mode }
    }

    /// Moves the end that is not anchored.
    pub fn update(&mut self, row: usize, col: usize)
        ensures
            *final(self) == (Selection { end: (row, col), ..*old(self) }),
    {
        self.end = (row, col);
    }

    /// Whether it takes in no more than the cell at which it began.
    pub fn is_empty(&self) -> (b: bool)
        ensures
            b == (self.start == self.end),
    {
        self.start.0 == self.end.0 && self.start.1 == self.end.1
    }

    /// The two ends in reading order.
    pub fn ordered(&self) -> (ends: ((usize, usize), (usize, usize)))
        ensures
            ends == ordered_ends(*self),
            not_after(ends.0, ends.1),
    {
        let (sr, sc) = self.start;
        let (er, ec) = self.end;
        if sr < er || (sr == er && sc <= ec) {
            (self.start, self.end)
        } else {
            (self.end, self.start)
        }
    }
}

} // verus!

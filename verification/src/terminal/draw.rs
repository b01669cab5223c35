//! What is drawn of a pane, and where: all in cells, so that a painter only has
//! to multiply by the size of one.

use vstd::prelude::*;

use crate::terminal::hover::{CodeBlock, HoverState};
use crate::terminal::lookup::{cell_shows, shows, HoverUrl};
use crate::terminal::search::{viewed, Match, SearchState};
use crate::terminal::view::{before, ViewState};
use crate::text::same_text;
use crate::vt::{
    cells_model, ordered_ends, Cell, CellModel, Color, Screen, ScreenModel, Selection,
    SelectionMode,
};

verus! {

// ---------------------------------------------------------------------------
// Backgrounds
// ---------------------------------------------------------------------------
/// Neighbouring cells with one background: painted as one, they show no seams.
#[derive(Clone, Copy, Debug, PartialEq, Eq, Structural)]
pub struct BackgroundRun {
    pub start: usize,
    /// One past the last column.
    pub end: usize,
    pub r: u8,
    pub g: u8,
    pub b: u8,
}

/// The first column from `c` on that has not this background.
pub open spec fn background_end(cells: Seq<CellModel>, num: int, bg: Color, c: int) -> int
    decreases num - c,
{
    if c >= num || cells[c].attrs.bg != bg {
        c
    } else {
        background_end(cells, num, bg, c + 1)
    }
}

pub proof fn lemma_background_end(cells: Seq<CellModel>, num: int, bg: Color, c: int)
    requires
        c <= num,
    ensures
        c <= background_end(cells, num, bg, c) <= num,
        forall|k: int|
            c <= k < background_end(cells, num, bg, c) ==> (#[trigger] cells[k]).attrs.bg == bg,
        background_end(cells, num, bg, c) < num ==> cells[background_end(
            cells,
            num,
            bg,
            c,
        )].attrs.bg != bg,
    decreases num - c,
{
    if c < num && cells[c].attrs.bg == bg {
        lemma_background_end(cells, num, bg, c + 1);
    }
}

/// The runs of the first `num` cells of a row from a column on. Cells with the
/// background of the theme are in none.
pub open spec fn background_runs_from(cells: Seq<CellModel>, num: int, c: int) -> Seq<BackgroundRun>
    decreases num - c,
{
    if c >= num {
        Seq::empty()
    } else {
        match cells[c].attrs.bg {
            Color::Default => background_runs_from(cells, num, c + 1),
            Color::Rgb(r, g, b) => {
                let end = background_end(cells, num, cells[c].attrs.bg, c + 1);
                proof {
                    lemma_background_end(cells, num, cells[c].attrs.bg, c + 1);
                }
                seq![BackgroundRun { start: c as usize, end: end as usize, r, g, b }]
                    + background_runs_from(cells, num, end)
            },
        }
    }
}

/// Whether a run takes in a column.
pub open spec fn in_run(run: BackgroundRun, c: int) -> bool {
    run.start <= c < run.end
}

/// Every cell is painted with its own background: one of a colour is in a run of
/// that colour, and a cell in a run has the run's colour.
pub proof fn law_backgrounds(cells: Seq<CellModel>, num: int, c: int)
    requires
        0 <= c < num <= usize::MAX,
    ensures
        cells[c].attrs.bg matches Color::Rgb(r, g, b) ==> exists|i: int|
            0 <= i < background_runs_from(cells, num, 0).len() && in_run(
                #[trigger] background_runs_from(cells, num, 0)[i],
                c,
            ),
        forall|i: int|
            0 <= i < background_runs_from(cells, num, 0).len() && in_run(
                #[trigger] background_runs_from(cells, num, 0)[i],
                c,
            ) ==> cells[c].attrs.bg == Color::Rgb(
                background_runs_from(cells, num, 0)[i].r,
                background_runs_from(cells, num, 0)[i].g,
                background_runs_from(cells, num, 0)[i].b,
            ),
{
    lemma_backgrounds(cells, num, 0, c);
}

proof fn lemma_backgrounds(cells: Seq<CellModel>, num: int, from: int, c: int)
    requires
        0 <= from <= num,
        0 <= c < num <= usize::MAX,
    ensures
        from <= c && cells[c].attrs.bg is Rgb ==> exists|i: int|
            0 <= i < background_runs_from(cells, num, from).len() && in_run(
                #[trigger] background_runs_from(cells, num, from)[i],
                c,
            ),
        forall|i: int|
            0 <= i < background_runs_from(cells, num, from).len() && in_run(
                #[trigger] background_runs_from(cells, num, from)[i],
                c,
            ) ==> cells[c].attrs.bg == Color::Rgb(
                background_runs_from(cells, num, from)[i].r,
                background_runs_from(cells, num, from)[i].g,
                background_runs_from(cells, num, from)[i].b,
            ),
    decreases num - from,
{
    if from < num {
        match cells[from].attrs.bg {
            Color::Default => {
                lemma_backgrounds(cells, num, from + 1, c);
                assert(background_runs_from(cells, num, from) == background_runs_from(
                    cells,
                    num,
                    from + 1,
                ));
            },
            Color::Rgb(r, g, b) => {
                let bg = cells[from].attrs.bg;
                let end = background_end(cells, num, bg, from + 1);
                lemma_background_end(cells, num, bg, from + 1);
                lemma_backgrounds(cells, num, end, c);
                let rest = background_runs_from(cells, num, end);
                let run = BackgroundRun { start: from as usize, end: end as usize, r, g, b };
                let all = background_runs_from(cells, num, from);
                assert(all =~= seq![run] + rest);
                if from <= c && cells[c].attrs.bg is Rgb {
                    if c < end {
                        assert(in_run(all[0], c));
                    } else {
                        let i = choose|i: int| 0 <= i < rest.len() && in_run(#[trigger] rest[i], c);
                        assert(all[i + 1] == rest[i]);
                    }
                }
                assert forall|i: int| 0 <= i < all.len() && in_run(#[trigger] all[i], c) implies cells[
                c].attrs.bg == Color::Rgb(all[i].r, all[i].g, all[i].b) by {
                    if i > 0 {
                        assert(all[i] == rest[i - 1]);
                        assert(in_run(rest[i - 1], c));
                    } else {
                        assert(cells[c].attrs.bg == bg);
                    }
                }
            },
        }
    }
}

/// The runs of the first `num` cells of a row.
pub fn background_runs(cells: &Vec<Cell>, num: usize) -> (runs: Vec<BackgroundRun>)
    requires
        num <= cells@.len(),
    ensures
        runs@ == background_runs_from(cells_model(cells@), num as int, 0),
{
    let ghost model = cells_model(cells@);
    let mut runs: Vec<BackgroundRun> = Vec::new();
    let mut col: usize = 0;
    let ghost all = background_runs_from(model, num as int, 0);
    assert(runs@ + all =~= all);
    while col < num
        invariant
            col <= num,
            num <= cells@.len(),
            model == cells_model(cells@),
            runs@ + background_runs_from(model, num as int, col as int) == all,
        decreases num - col,
    {
        assert(model[col as int] == cells@[col as int]@);
        match cells[col].attrs.bg {
            Color::Default => {
                col = col + 1;
            },
            Color::Rgb(r, g, b) => {
                let start: usize = col;
                let bg = cells[col].attrs.bg;
                let ghost before = runs@;
                let ghost from = background_runs_from(model, num as int, start as int);
                col = col + 1;
                while col < num && cells[col].attrs.bg == bg
                    invariant
                        start < col <= num,
                        num <= cells@.len(),
                        model == cells_model(cells@),
                        background_end(model, num as int, bg, start + 1) == background_end(
                            model,
                            num as int,
                            bg,
                            col as int,
                        ),
                    decreases num - col,
                {
                    assert(model[col as int] == cells@[col as int]@);
                    col = col + 1;
                }
                assert(col < num ==> model[col as int] == cells@[col as int]@);
                runs.push(BackgroundRun { start, end: col, r, g, b });
                proof {
                    lemma_background_end(model, num as int, bg, start + 1);
                    let rest = background_runs_from(model, num as int, col as int);
                    assert(runs@ + rest =~= before + from);
                }
            },
        }
    }
    assert(runs@ =~= all);
    runs
}

// ---------------------------------------------------------------------------
// Text
// ---------------------------------------------------------------------------
/// What is drawn over the backgrounds.
#[derive(Clone, Copy, Debug, PartialEq, Eq, Structural)]
pub enum ForegroundItem {
    /// Neighbouring full blocks of one colour, painted as one.
    Blocks { start: usize, end: usize, fg: Color, dim: bool },
    /// The text of one cell, with its lines.
    Text { col: usize },
}

/// Whether a cell is a full block of a colour.
pub open spec fn is_block(cell: CellModel, fg: Color, dim: bool) -> bool {
    cell.grapheme == "█"@ && cell.attrs.fg == fg && cell.attrs.dim == dim
}

/// The first column from `c` on that is not such a block.
pub open spec fn blocks_end(cells: Seq<CellModel>, num: int, fg: Color, dim: bool, c: int) -> int
    decreases num - c,
{
    if c >= num || !is_block(cells[c], fg, dim) {
        c
    } else {
        blocks_end(cells, num, fg, dim, c + 1)
    }
}

pub proof fn lemma_blocks_end(cells: Seq<CellModel>, num: int, fg: Color, dim: bool, c: int)
    requires
        c <= num,
    ensures
        c <= blocks_end(cells, num, fg, dim, c) <= num,
    decreases num - c,
{
    if c < num && is_block(cells[c], fg, dim) {
        lemma_blocks_end(cells, num, fg, dim, c + 1);
    }
}

/// What is drawn over the first `num` cells of a row from a column on. Of cells
/// that show nothing, nothing is.
pub open spec fn foreground_from(cells: Seq<CellModel>, num: int, c: int) -> Seq<ForegroundItem>
    decreases num - c,
{
    if c >= num {
        Seq::empty()
    } else if !shows(cells[c].grapheme) {
        foreground_from(cells, num, c + 1)
    } else if cells[c].grapheme == "█"@ {
        let fg = cells[c].attrs.fg;
        let dim = cells[c].attrs.dim;
        let end = blocks_end(cells, num, fg, dim, c + 1);
        proof {
            lemma_blocks_end(cells, num, fg, dim, c + 1);
        }
        seq![ForegroundItem::Blocks { start: c as usize, end: end as usize, fg, dim }]
            + foreground_from(cells, num, end)
    } else {
        seq![ForegroundItem::Text { col: c as usize }] + foreground_from(cells, num, c + 1)
    }
}

fn cell_is_block(cell: &Cell, fg: Color, dim: bool) -> (b: bool)
    ensures
        b == is_block(cell@, fg, dim),
{
    same_text(cell.grapheme.as_str(), "█") && cell.attrs.fg == fg && cell.attrs.dim == dim
}

/// What is drawn over the first `num` cells of a row.
pub fn foreground_items(cells: &Vec<Cell>, num: usize) -> (items: Vec<ForegroundItem>)
    requires
        num <= cells@.len(),
    ensures
        items@ == foreground_from(cells_model(cells@), num as int, 0),
{
    let ghost model = cells_model(cells@);
    let mut items: Vec<ForegroundItem> = Vec::new();
    let mut col: usize = 0;
    let ghost all = foreground_from(model, num as int, 0);
    assert(items@ + all =~= all);
    while col < num
        invariant
            col <= num,
            num <= cells@.len(),
            model == cells_model(cells@),
            items@ + foreground_from(model, num as int, col as int) == all,
        decreases num - col,
    {
        assert(model[col as int] == cells@[col as int]@);
        let ghost before = items@;
        let ghost from = foreground_from(model, num as int, col as int);
        if !cell_shows(&cells[col]) {
            col = col + 1;
        } else if same_text(cells[col].grapheme.as_str(), "█") {
            let fg = cells[col].attrs.fg;
            let dim = cells[col].attrs.dim;
            let start: usize = col;
            col = col + 1;
            while col < num && cell_is_block(&cells[col], fg, dim)
                invariant
                    start < col <= num,
                    num <= cells@.len(),
                    model == cells_model(cells@),
                    blocks_end(model, num as int, fg, dim, start + 1) == blocks_end(
                        model,
                        num as int,
                        fg,
                        dim,
                        col as int,
                    ),
                decreases num - col,
            {
                assert(model[col as int] == cells@[col as int]@);
                col = col + 1;
            }
            assert(col < num ==> model[col as int] == cells@[col as int]@);
            items.push(ForegroundItem::Blocks { start, end: col, fg, dim });
            proof {
                lemma_blocks_end(model, num as int, fg, dim, start + 1);
                let rest = foreground_from(model, num as int, col as int);
                assert(items@ + rest =~= before + from);
            }
        } else {
            items.push(ForegroundItem::Text { col });
            col = col + 1;
            proof {
                let rest = foreground_from(model, num as int, col as int);
                assert(items@ + rest =~= before + from);
            }
        }
    }
    assert(items@ =~= all);
    items
}

// ---------------------------------------------------------------------------
// The address under the pointer
// ---------------------------------------------------------------------------
/// Part of a line under an address: the column and the colour.
#[derive(Clone, Copy, Debug, PartialEq, Eq, Structural)]
pub struct Underline {
    pub col: usize,
    pub fg: Color,
}

/// The line under the columns `from..to`: none under cells that have their own.
pub open spec fn underlines_from(cells: Seq<CellModel>, from: int, to: int) -> Seq<Underline>
    decreases to - from,
{
    if from >= to {
        Seq::empty()
    } else if from < cells.len() && cells[from].attrs.underline {
        underlines_from(cells, from + 1, to)
    } else {
        seq![
            Underline {
                col: from as usize,
                fg: if from < cells.len() {
                    cells[from].attrs.fg
                } else {
                    Color::Default
                },
            },
        ] + underlines_from(cells, from + 1, to)
    }
}

/// The line under the address under the pointer.
pub open spec fn hover_underlines_of(
    hover: Option<HoverUrl>,
    screen: ScreenModel,
    num_rows: int,
    num_cols: int,
) -> Seq<Underline> {
    match hover {
        Some(h) if h.screen_row < num_rows => underlines_from(
            screen.lines[h.screen_row as int],
            h.col_start as int,
            smaller(h.col_end as int, num_cols),
        ),
        _ => Seq::empty(),
    }
}

/// The smaller of two.
pub open spec fn smaller(a: int, b: int) -> int {
    if a <= b {
        a
    } else {
        b
    }
}

fn hover_underlines(hover: &Option<HoverUrl>, screen: &Screen, num_rows: usize, num_cols: usize) -> (lines:
    Vec<Underline>)
    requires
        num_rows <= screen@.lines.len(),
    ensures
        lines@ == hover_underlines_of(*hover, screen@, num_rows as int, num_cols as int),
{
    let mut lines: Vec<Underline> = Vec::new();
    if let Some(h) = hover {
        if h.screen_row < num_rows {
            let cells = screen.row(h.screen_row);
            let ghost model = cells_model(cells@);
            let to: usize = if h.col_end <= num_cols {
                h.col_end
            } else {
                num_cols
            };
            let mut col: usize = h.col_start;
            let ghost all = underlines_from(model, col as int, to as int);
            assert(lines@ + all =~= all);
            while col < to
                invariant
                    model == cells_model(cells@),
                    lines@ + underlines_from(model, col as int, to as int) == all,
                decreases to - col,
            {
                assert(col < cells@.len() ==> model[col as int] == cells@[col as int]@);
                let ghost before = lines@;
                let ghost from = underlines_from(model, col as int, to as int);
                if !(col < cells.len() && cells[col].attrs.underline) {
                    let fg = if col < cells.len() {
                        cells[col].attrs.fg
                    } else {
                        Color::Default
                    };
                    lines.push(Underline { col, fg });
                }
                col = col + 1;
                assert(lines@ + underlines_from(model, col as int, to as int) =~= before + from);
            }
            assert(lines@ =~= all);
        }
    }
    lines
}

// ---------------------------------------------------------------------------
// The cursor
// ---------------------------------------------------------------------------
/// The shape of the cursor.
#[derive(Clone, Copy, Debug, PartialEq, Eq, Structural)]
pub enum CursorShape {
    Block,
    Bar,
    Underline,
    BlockHollow,
}

/// The shape that a program asked for by number. Any number that means nothing
/// means a block.
pub open spec fn shape_numbered(code: i32) -> CursorShape {
    if code == 0 {
        CursorShape::Bar
    } else if code == 2 {
        CursorShape::Underline
    } else if code == 3 {
        CursorShape::BlockHollow
    } else {
        CursorShape::Block
    }
}

/// The cursor of a terminal.
#[derive(Clone, Copy, Debug, PartialEq, Eq)]
pub struct Cursor {
    pub row: usize,
    pub col: usize,
    /// Whether the program shows it.
    pub visible: bool,
    /// Whether it blinks.
    pub blinking: bool,
    /// The number of its shape.
    pub shape_code: i32,
    /// Its colour, where the program set one.
    pub color: Option<(u8, u8, u8)>,
}

/// A cursor that is drawn.
#[derive(Clone, Copy, Debug, PartialEq, Eq)]
pub struct DrawnCursor {
    pub row: usize,
    pub col: usize,
    pub shape: CursorShape,
    /// Whether the text under it is drawn once more, in the background's colour.
    pub text: bool,
    /// Its colour; the theme's where there is none.
    pub color: Option<(u8, u8, u8)>,
}

/// Whether the cursor is drawn: only in the pane with the focus, where the
/// program shows it, within the view, and not while it is blinked away.
pub open spec fn cursor_drawn(
    cursor: Cursor,
    focused: bool,
    blink_visible: bool,
    num_rows: int,
    num_cols: int,
) -> bool {
    focused && cursor.visible && cursor.row < num_rows && cursor.col < num_cols && (
    !cursor.blinking || blink_visible)
}

/// The cursor that is drawn.
pub open spec fn drawn_cursor(
    cursor: Cursor,
    screen: ScreenModel,
    focused: bool,
    blink_visible: bool,
    num_rows: int,
    num_cols: int,
) -> Option<DrawnCursor> {
    if cursor_drawn(cursor, focused, blink_visible, num_rows, num_cols) {
        Some(
            DrawnCursor {
                row: cursor.row,
                col: cursor.col,
                shape: shape_numbered(cursor.shape_code),
                text: shape_numbered(cursor.shape_code) is Block && cursor.col
                    < screen.lines[cursor.row as int].len() && shows(
                    screen.lines[cursor.row as int][cursor.col as int].grapheme,
                ),
                color: cursor.color,
            },
        )
    } else {
        None
    }
}

fn draw_cursor(
    cursor: &Cursor,
    screen: &Screen,
    focused: bool,
    blink_visible: bool,
    num_rows: usize,
    num_cols: usize,
) -> (drawn: Option<DrawnCursor>)
    requires
        num_rows <= screen@.lines.len(),
    ensures
        drawn == drawn_cursor(
            *cursor,
            screen@,
            focused,
            blink_visible,
            num_rows as int,
            num_cols as int,
        ),
{
    if !(focused && cursor.visible && cursor.row < num_rows && cursor.col < num_cols && (
    !cursor.blinking || blink_visible)) {
        return None;
    }
    let shape = if cursor.shape_code == 0 {
        CursorShape::Bar
    } else if cursor.shape_code == 2 {
        CursorShape::Underline
    } else if cursor.shape_code == 3 {
        CursorShape::BlockHollow
    } else {
        CursorShape::Block
    };
    let block = match shape {
        CursorShape::Block => true,
        _ => false,
    };
    let cells = screen.row(cursor.row);
    assert(cursor.col < cells@.len() ==> cells_model(cells@)[cursor.col as int]
        == cells@[cursor.col as int]@);
    let text = block && cursor.col < cells.len() && cell_shows(&cells[cursor.col]);
    Some(DrawnCursor { row: cursor.row, col: cursor.col, shape, text, color: cursor.color })
}

// ---------------------------------------------------------------------------
// Selections and matches
// ---------------------------------------------------------------------------
/// Neighbouring cells of a row.
#[derive(Clone, Copy, Debug, PartialEq, Eq, Structural)]
pub struct RowSpan {
    pub row: usize,
    pub start: usize,
    /// One past the last column.
    pub end: usize,
}

/// The columns of a row of the scrollback that a selection takes in, the second
/// number one past the last.
pub open spec fn selected_columns(sel: Selection, abs_row: int, num_cols: int) -> (int, int) {
    let ((sr, sc), (er, ec)) = ordered_ends(sel);
    match sel.mode {
        SelectionMode::Line => (0, num_cols),
        SelectionMode::Block => if sc <= ec {
            (sc as int, ec + 1)
        } else {
            (ec as int, sc + 1)
        },
        _ => (
            if abs_row == sr {
                sc as int
            } else {
                0
            },
            if abs_row == er {
                ec + 1
            } else {
                num_cols
            },
        ),
    }
}

/// The spans of a selection in the rows `from..=to` of the scrollback, in rows
/// of a view that starts at `offset`.
pub open spec fn selection_spans_from(
    sel: Selection,
    offset: int,
    num_cols: int,
    from: int,
    to: int,
) -> Seq<RowSpan>
    decreases to - from + 1,
{
    if from > to {
        Seq::empty()
    } else {
        let (start, end) = selected_columns(sel, from, num_cols);
        let rest = selection_spans_from(sel, offset, num_cols, from + 1, to);
        if end > start {
            seq![
                RowSpan {
                    row: (from - offset) as usize,
                    start: start as usize,
                    end: end as usize,
                },
            ] + rest
        } else {
            rest
        }
    }
}

/// The row of the scrollback at the bottom of the view.
pub open spec fn bottom_row(offset: int, num_rows: int) -> int {
    if num_rows > 0 {
        offset + num_rows - 1
    } else {
        offset
    }
}

/// The larger of two.
pub open spec fn larger(a: int, b: int) -> int {
    if a >= b {
        a
    } else {
        b
    }
}

/// The spans of a selection in view.
pub open spec fn selection_spans_of(sel: Selection, offset: int, num_rows: int, num_cols: int) -> Seq<
    RowSpan,
> {
    let ((sr, sc), (er, ec)) = ordered_ends(sel);
    let bottom = bottom_row(offset, num_rows);
    if er >= offset && sr <= bottom {
        selection_spans_from(
            sel,
            offset,
            num_cols,
            larger(sr as int, offset),
            smaller(er as int, bottom),
        )
    } else {
        Seq::empty()
    }
}

/// Whether a selection takes in a cell of the scrollback.
pub open spec fn selected(sel: Selection, abs_row: int, col: int) -> bool {
    let ((sr, sc), (er, ec)) = ordered_ends(sel);
    sr <= abs_row <= er && match sel.mode {
        SelectionMode::Line => true,
        SelectionMode::Block => smaller(sc as int, ec as int) <= col <= larger(sc as int, ec as int),
        _ => (abs_row > sr || col >= sc) && (abs_row < er || col <= ec),
    }
}

/// Whether spans take in a cell of the view.
pub open spec fn covers(spans: Seq<RowSpan>, row: int, col: int) -> bool {
    exists|i: int|
        0 <= i < spans.len() && (#[trigger] spans[i]).row == row && spans[i].start <= col
            < spans[i].end
}

/// Of the cells in view exactly those are marked that the selection takes in.
pub proof fn law_selection_is_drawn(
    sel: Selection,
    offset: int,
    num_rows: int,
    num_cols: int,
    row: int,
    col: int,
)
    requires
        columns_fit(sel),
        0 <= offset,
        offset + num_rows < usize::MAX,
        0 <= num_cols <= usize::MAX,
        0 <= row < num_rows,
        0 <= col < num_cols,
    ensures
        covers(selection_spans_of(sel, offset, num_rows, num_cols), row, col) <==> selected(
            sel,
            offset + row,
            col,
        ),
{
    let ((sr, sc), (er, ec)) = ordered_ends(sel);
    let bottom = bottom_row(offset, num_rows);
    if er >= offset && sr <= bottom {
        lemma_spans_cover(
            sel,
            offset,
            num_cols,
            larger(sr as int, offset),
            smaller(er as int, bottom),
            row,
            col,
        );
    }
}

proof fn lemma_spans_cover(
    sel: Selection,
    offset: int,
    num_cols: int,
    from: int,
    to: int,
    row: int,
    col: int,
)
    requires
        columns_fit(sel),
        0 <= offset <= from,
        to < usize::MAX,
        0 <= num_cols <= usize::MAX,
        0 <= row,
        0 <= col,
    ensures
        covers(selection_spans_from(sel, offset, num_cols, from, to), row, col) <==> from <= offset
            + row <= to && selected_columns(sel, offset + row, num_cols).0 <= col
            < selected_columns(sel, offset + row, num_cols).1,
    decreases to - from + 1,
{
    if from <= to {
        lemma_spans_cover(sel, offset, num_cols, from + 1, to, row, col);
        let (start, end) = selected_columns(sel, from, num_cols);
        let rest = selection_spans_from(sel, offset, num_cols, from + 1, to);
        let all = selection_spans_from(sel, offset, num_cols, from, to);
        if end > start {
            let span = RowSpan {
                row: (from - offset) as usize,
                start: start as usize,
                end: end as usize,
            };
            assert(all =~= seq![span] + rest);
            if covers(rest, row, col) {
                let i = choose|i: int|
                    0 <= i < rest.len() && (#[trigger] rest[i]).row == row && rest[i].start <= col
                        < rest[i].end;
                assert(all[i + 1] == rest[i]);
                assert(covers(all, row, col));
            }
            if from == offset + row && start <= col < end {
                assert(all[0] == span);
                assert(covers(all, row, col));
            }
            if covers(all, row, col) {
                let i = choose|i: int|
                    0 <= i < all.len() && (#[trigger] all[i]).row == row && all[i].start <= col
                        < all[i].end;
                if i > 0 {
                    assert(rest[i - 1] == all[i]);
                    assert(covers(rest, row, col));
                }
            }
        }
    }
}

/// Whether the column behind each end of a selection has a number.
pub open spec fn columns_fit(sel: Selection) -> bool {
    sel.start.1 < usize::MAX && sel.end.1 < usize::MAX
}

/// The spans of a selection in view.
pub fn selection_spans(sel: &Selection, offset: usize, num_rows: usize, num_cols: usize) -> (spans:
    Vec<RowSpan>)
    requires
        columns_fit(*sel),
        offset + num_rows < usize::MAX,
    ensures
        spans@ == selection_spans_of(*sel, offset as int, num_rows as int, num_cols as int),
{
    let mut spans: Vec<RowSpan> = Vec::new();
    let ((sr, sc), (er, ec)) = sel.ordered();
    let bottom: usize = if num_rows > 0 {
        offset + (num_rows - 1)
    } else {
        offset
    };
    if er < offset || sr > bottom {
        return spans;
    }
    let first: usize = if sr >= offset {
        sr
    } else {
        offset
    };
    let last: usize = if er <= bottom {
        er
    } else {
        bottom
    };
    let ghost all = selection_spans_from(
        *sel,
        offset as int,
        num_cols as int,
        first as int,
        last as int,
    );
    assert(spans@ + all =~= all);
    let mut abs_row: usize = first;
    while abs_row <= last
        invariant
            columns_fit(*sel),
            ((sr, sc), (er, ec)) == ordered_ends(*sel),
            offset <= first <= abs_row,
            last < usize::MAX,
            spans@ + selection_spans_from(
                *sel,
                offset as int,
                num_cols as int,
                abs_row as int,
                last as int,
            ) == all,
        decreases last + 1 - abs_row,
    {
        let start: usize = match sel.mode {
            SelectionMode::Line => 0,
            SelectionMode::Block => if sc <= ec {
                sc
            } else {
                ec
            },
            _ => if abs_row == sr {
                sc
            } else {
                0
            },
        };
        let end: usize = match sel.mode {
            SelectionMode::Line => num_cols,
            SelectionMode::Block => if sc <= ec {
                ec + 1
            } else {
                sc + 1
            },
            _ => if abs_row == er {
                ec + 1
            } else {
                num_cols
            },
        };
        let ghost before = spans@;
        let ghost from = selection_spans_from(
            *sel,
            offset as int,
            num_cols as int,
            abs_row as int,
            last as int,
        );
        if end > start {
            spans.push(RowSpan { row: abs_row - offset, start, end });
        }
        abs_row = abs_row + 1;
        proof {
            let rest = selection_spans_from(
                *sel,
                offset as int,
                num_cols as int,
                abs_row as int,
                last as int,
            );
            assert(spans@ + rest =~= before + from);
        }
    }
    assert(spans@ =~= all);
    spans
}

/// A match that is highlighted.
#[derive(Clone, Copy, Debug, PartialEq, Eq, Structural)]
pub struct Highlight {
    pub span: RowSpan,
    /// Whether it is the match in focus.
    pub current: bool,
}

/// The highlights of matches from the one at `i` on: those of their cells that
/// are in view.
pub open spec fn highlights_from(
    matches: Seq<Match>,
    focus: Option<usize>,
    num_rows: int,
    num_cols: int,
    i: int,
) -> Seq<Highlight>
    decreases matches.len() - i,
{
    if i >= matches.len() {
        Seq::empty()
    } else {
        let (row, col, len) = matches[i];
        let rest = highlights_from(matches, focus, num_rows, num_cols, i + 1);
        let end = smaller(col + len, num_cols);
        if row < num_rows && col < end {
            seq![
                Highlight {
                    span: RowSpan { row, start: col, end: end as usize },
                    current: focus == Some(i as usize),
                },
            ] + rest
        } else {
            rest
        }
    }
}

/// The highlights of matches in view.
pub fn highlights(matches: &Vec<Match>, focus: Option<usize>, num_rows: usize, num_cols: usize) -> (out:
    Vec<Highlight>)
    ensures
        out@ == highlights_from(matches@, focus, num_rows as int, num_cols as int, 0),
{
    let mut out: Vec<Highlight> = Vec::new();
    let ghost all = highlights_from(matches@, focus, num_rows as int, num_cols as int, 0);
    assert(out@ + all =~= all);
    let mut i: usize = 0;
    while i < matches.len()
        invariant
            i <= matches@.len(),
            out@ + highlights_from(
                matches@,
                focus,
                num_rows as int,
                num_cols as int,
                i as int,
            ) == all,
        decreases matches@.len() - i,
    {
        let (row, col, len) = matches[i];
        let ghost before = out@;
        let ghost from = highlights_from(
            matches@,
            focus,
            num_rows as int,
            num_cols as int,
            i as int,
        );
        if row < num_rows && col < num_cols && len > 0 {
            let end: usize = if len <= num_cols - col {
                col + len
            } else {
                num_cols
            };
            let current = match focus {
                Some(f) => f == i,
                None => false,
            };
            out.push(Highlight { span: RowSpan { row, start: col, end }, current });
        }
        i = i + 1;
        proof {
            let rest = highlights_from(
                matches@,
                focus,
                num_rows as int,
                num_cols as int,
                i as int,
            );
            assert(out@ + rest =~= before + from);
        }
    }
    assert(out@ =~= all);
    out
}

// ---------------------------------------------------------------------------
// Blocks of code
// ---------------------------------------------------------------------------
/// A column of a border, in the rows `from..to` as far as they are in view.
pub open spec fn border_column(col: usize, num_rows: int, from: int, to: int) -> Seq<RowSpan>
    decreases to - from,
{
    if from >= to {
        Seq::empty()
    } else if from < num_rows {
        seq![RowSpan { row: from as usize, start: col, end: (col + 1) as usize }] + border_column(
            col,
            num_rows,
            from + 1,
            to,
        )
    } else {
        border_column(col, num_rows, from + 1, to)
    }
}

/// A row of a border, where it is in view.
pub open spec fn border_row(b: CodeBlock, row: usize, num_rows: int) -> Seq<RowSpan> {
    if row < num_rows {
        seq![RowSpan { row, start: b.left_col, end: (b.right_col + 1) as usize }]
    } else {
        Seq::empty()
    }
}

/// The border of a block: the row above, the row below, and both sides.
pub open spec fn border_of(b: CodeBlock, num_rows: int) -> Seq<RowSpan> {
    border_row(b, b.top_row, num_rows) + border_row(b, b.bottom_row, num_rows) + border_column(
        b.left_col,
        num_rows,
        b.top_row + 1,
        b.bottom_row as int,
    ) + border_column(b.right_col, num_rows, b.top_row + 1, b.bottom_row as int)
}

fn push_column(spans: &mut Vec<RowSpan>, col: usize, num_rows: usize, top: usize, bottom: usize)
    requires
        col < usize::MAX,
    ensures
        final(spans)@ == old(spans)@ + border_column(
            col,
            num_rows as int,
            top + 1,
            bottom as int,
        ),
{
    let ghost all = border_column(col, num_rows as int, top + 1, bottom as int);
    if top >= bottom {
        assert(spans@ =~= old(spans)@ + all);
        return;
    }
    let mut row: usize = top + 1;
    while row < bottom
        invariant
            col < usize::MAX,
            row <= bottom,
            spans@ + border_column(col, num_rows as int, row as int, bottom as int) == old(spans)@
                + all,
        decreases bottom - row,
    {
        let ghost before = spans@;
        let ghost from = border_column(col, num_rows as int, row as int, bottom as int);
        if row < num_rows {
            spans.push(RowSpan { row, start: col, end: col + 1 });
        }
        row = row + 1;
        proof {
            let rest = border_column(col, num_rows as int, row as int, bottom as int);
            assert(spans@ + rest =~= before + from);
        }
    }
    assert(spans@ =~= old(spans)@ + all);
}

/// The border of a block, as far as it is in view.
pub fn border_spans(b: &CodeBlock, num_rows: usize) -> (spans: Vec<RowSpan>)
    requires
        b.left_col <= b.right_col < usize::MAX,
    ensures
        spans@ == border_of(*b, num_rows as int),
{
    let mut spans: Vec<RowSpan> = Vec::new();
    if b.top_row < num_rows {
        spans.push(RowSpan { row: b.top_row, start: b.left_col, end: b.right_col + 1 });
    }
    if b.bottom_row < num_rows {
        spans.push(RowSpan { row: b.bottom_row, start: b.left_col, end: b.right_col + 1 });
    }
    assert(spans@ =~= border_row(*b, b.top_row, num_rows as int) + border_row(
        *b,
        b.bottom_row,
        num_rows as int,
    ));
    push_column(&mut spans, b.left_col, num_rows, b.top_row, b.bottom_row);
    push_column(&mut spans, b.right_col, num_rows, b.top_row, b.bottom_row);
    assert(spans@ =~= border_of(*b, num_rows as int));
    spans
}

// ---------------------------------------------------------------------------
// A frame
// ---------------------------------------------------------------------------
/// Everything that is drawn, in the order in which it is: backgrounds and texts
/// row by row, the line under an address, the cursor, the selection, matches,
/// a wash over a pane without the focus, the flash of a bell, the ring of a
/// notification, and the border of a block of code with its button.
#[derive(Debug, PartialEq, Eq)]
pub struct Scene {
    pub backgrounds: Vec<Vec<BackgroundRun>>,
    pub foregrounds: Vec<Vec<ForegroundItem>>,
    pub underline_row: usize,
    pub underlines: Vec<Underline>,
    pub cursor: Option<DrawnCursor>,
    pub selection: Vec<RowSpan>,
    pub highlights: Vec<Highlight>,
    pub dimmed: bool,
    pub flash: bool,
    pub ring: bool,
    pub block: Option<CodeBlock>,
    pub block_border: Vec<RowSpan>,
    /// Whether the button shows that a copy was made.
    pub copied: bool,
}

/// The rows that are drawn.
pub open spec fn rows_drawn(screen: ScreenModel, rows: nat) -> int {
    smaller(screen.lines.len() as int, rows as int)
}

/// The columns that are drawn.
pub open spec fn cols_drawn(screen: ScreenModel, cols: nat) -> int {
    smaller(screen.cols as int, cols as int)
}

/// The cells of a row that are drawn.
pub open spec fn cells_drawn(screen: ScreenModel, cols: nat, row: int) -> int {
    smaller(cols_drawn(screen, cols), screen.lines[row].len() as int)
}

/// Plans a frame of a pane, of which the terminal says that its view starts at
/// row `offset` of the scrollback and is `len` rows high.
pub fn draw_terminal(
    view: &mut ViewState,
    search: &mut SearchState,
    hover: &HoverState,
    screen: &Screen,
    cursor: &Cursor,
    focused: bool,
    now: u64,
    offset: usize,
    len: usize,
) -> (scene: Scene)
    requires
        offset + len <= usize::MAX,
        old(view).viewport_offset + old(view).rows < usize::MAX,
        old(view).pointer.selection matches Some(sel) ==> columns_fit(sel),
        hover.hovered_code_block matches Some(b) ==> b.left_col <= b.right_col < usize::MAX,
    ensures
        ({
            let m = screen@;
            let rows = rows_drawn(m, old(view).rows as nat);
            let cols = cols_drawn(m, old(view).cols as nat);
            &&& scene.backgrounds@.len() == rows
            &&& forall|r: int|
                0 <= r < rows ==> (#[trigger] scene.backgrounds@[r])@ == background_runs_from(
                    m.lines[r],
                    cells_drawn(m, old(view).cols as nat, r),
                    0,
                )
            &&& scene.foregrounds@.len() == rows
            &&& forall|r: int|
                0 <= r < rows ==> (#[trigger] scene.foregrounds@[r])@ == foreground_from(
                    m.lines[r],
                    cells_drawn(m, old(view).cols as nat, r),
                    0,
                )
            &&& scene.underlines@ == hover_underlines_of(hover.hover_url, m, rows, cols)
            &&& hover.hover_url matches Some(h) ==> scene.underline_row == h.screen_row
            &&& scene.cursor == drawn_cursor(
                *cursor,
                m,
                focused,
                old(view).cursor_blink_visible,
                rows,
                cols,
            )
            &&& scene.selection@ == match old(view).pointer.selection {
                Some(sel) => selection_spans_of(
                    sel,
                    old(view).viewport_offset as int,
                    rows,
                    cols,
                ),
                None => Seq::empty(),
            }
            &&& scene.highlights@ == if final(search)@.active {
                highlights_from(
                    final(search)@.matches,
                    final(search)@.current_viewport_index,
                    rows,
                    cols,
                    0,
                )
            } else {
                Seq::empty()
            }
            &&& scene.dimmed == !focused
            &&& scene.flash == before(now, old(view).bell_flash_until)
            &&& scene.ring == old(view).notification_ring
            &&& scene.block == hover.hovered_code_block
            &&& scene.block_border@ == match hover.hovered_code_block {
                Some(b) => border_of(b, rows),
                None => Seq::empty(),
            }
            &&& scene.copied == (hover.hovered_code_block is Some && before(
                now,
                old(view).copy_confirmed_until,
            ))
        }),
        final(search)@ == if old(search)@.active && old(search)@.query.len() > 0 {
            viewed(old(search)@, offset as int, offset + len)
        } else {
            old(search)@
        },
        *final(view) == (ViewState {
            bell_flash_until: if before(now, old(view).bell_flash_until) {
                old(view).bell_flash_until
            } else {
                None
            },
            copy_confirmed_until: if hover.hovered_code_block is None || before(
                now,
                old(view).copy_confirmed_until,
            ) {
                old(view).copy_confirmed_until
            } else {
                None
            },
            ..*old(view)
        }),
{
    if search.active && !search.query.as_str().is_empty() {
        search.filter_viewport_matches(offset, len);
    }
    let num_rows: usize = if screen.rows() <= view.rows {
        screen.rows()
    } else {
        view.rows
    };
    let num_cols: usize = if screen.cols() <= view.cols {
        screen.cols()
    } else {
        view.cols
    };
    let ghost m = screen@;
    let ghost first = *view;
    let mut backgrounds: Vec<Vec<BackgroundRun>> = Vec::new();
    let mut foregrounds: Vec<Vec<ForegroundItem>> = Vec::new();
    let mut row: usize = 0;
    while row < num_rows
        invariant
            row <= num_rows,
            m == screen@,
            num_rows <= m.lines.len(),
            num_cols == cols_drawn(m, first.cols as nat),
            backgrounds@.len() == row,
            foregrounds@.len() == row,
            forall|r: int|
                0 <= r < row ==> (#[trigger] backgrounds@[r])@ == background_runs_from(
                    m.lines[r],
                    cells_drawn(m, first.cols as nat, r),
                    0,
                ),
            forall|r: int|
                0 <= r < row ==> (#[trigger] foregrounds@[r])@ == foreground_from(
                    m.lines[r],
                    cells_drawn(m, first.cols as nat, r),
                    0,
                ),
        decreases num_rows - row,
    {
        let cells = screen.row(row);
        let num: usize = if num_cols <= cells.len() {
            num_cols
        } else {
            cells.len()
        };
        backgrounds.push(background_runs(cells, num));
        foregrounds.push(foreground_items(cells, num));
        row = row + 1;
    }
    let underlines = hover_underlines(&hover.hover_url, screen, num_rows, num_cols);
    let underline_row: usize = match &hover.hover_url {
        Some(h) => h.screen_row,
        None => 0,
    };
    let drawn = draw_cursor(
        cursor,
        screen,
        focused,
        view.cursor_blink_visible,
        num_rows,
        num_cols,
    );
    let selection = match view.pointer.selection {
        Some(sel) => selection_spans(&sel, view.viewport_offset as usize, num_rows, num_cols),
        None => Vec::new(),
    };
    let lit = if search.active {
        highlights(&search.matches, search.current_viewport_index, num_rows, num_cols)
    } else {
        Vec::new()
    };
    let flash = view.flashing(now);
    let mut block_border: Vec<RowSpan> = Vec::new();
    let mut copied = false;
    if let Some(b) = hover.hovered_code_block {
        block_border = border_spans(&b, num_rows);
        copied = view.confirming_copy(now);
    }
    Scene {
        backgrounds,
        foregrounds,
        underline_row,
        underlines,
        cursor: drawn,
        selection,
        highlights: lit,
        dimmed: !focused,
        flash,
        ring: view.notification_ring,
        block: hover.hovered_code_block,
        block_border,
        copied,
    }
}

} // verus!

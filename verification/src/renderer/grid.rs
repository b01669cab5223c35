//! The backgrounds of cells.

use vstd::prelude::*;

use crate::renderer::color::{resolved, ColorScheme};
use crate::vt::{cells_model, Cell, CellModel, Screen, ScreenModel};

verus! {

/// A cell whose background is drawn, by its place in the view.
#[derive(Clone, Copy, Debug, PartialEq, Eq)]
pub struct BackgroundCell {
    pub row: usize,
    pub col: usize,
    pub color: [u8; 4],
}

/// A cell of the view and its colour.
pub ghost struct BackgroundModel {
    pub row: int,
    pub col: int,
    pub color: Seq<u8>,
}

impl View for BackgroundCell {
    type V = BackgroundModel;

    open spec fn view(&self) -> BackgroundModel {
        BackgroundModel { row: self.row as int, col: self.col as int, color: self.color@ }
    }
}

/// Cells as mathematical values.
pub open spec fn background_models(cells: Seq<BackgroundCell>) -> Seq<BackgroundModel> {
    Seq::new(cells.len(), |i: int| cells[i]@)
}

/// The colour behind a cell; that of its text where they are swapped.
pub open spec fn behind(cell: CellModel, scheme: ColorScheme) -> Seq<u8> {
    if cell.attrs.inverse {
        resolved(cell.attrs.fg, scheme.foreground@)
    } else {
        resolved(cell.attrs.bg, scheme.background@)
    }
}

/// The cells of a row whose background is drawn, up to column `n`: those whose
/// colour is not the one that is there already.
pub open spec fn row_backgrounds(
    cells: Seq<CellModel>,
    scheme: ColorScheme,
    row: int,
    n: int,
) -> Seq<BackgroundModel>
    decreases n,
{
    if n <= 0 {
        Seq::empty()
    } else if behind(cells[n - 1], scheme) == scheme.background@ {
        row_backgrounds(cells, scheme, row, n - 1)
    } else {
        row_backgrounds(cells, scheme, row, n - 1).push(
            BackgroundModel { row, col: n - 1, color: behind(cells[n - 1], scheme) },
        )
    }
}

/// The number of cells of a row that are on the screen.
pub open spec fn shown_cells(screen: ScreenModel, row: int) -> int {
    if screen.cols <= screen.lines[row].len() {
        screen.cols as int
    } else {
        screen.lines[row].len() as int
    }
}

/// The cells whose background is drawn in the first `n` rows of a view that
/// begins `scroll` rows down the screen.
pub open spec fn backgrounds(screen: ScreenModel, scheme: ColorScheme, scroll: int, n: int) -> Seq<
    BackgroundModel,
>
    decreases n,
{
    if n <= 0 {
        Seq::empty()
    } else {
        backgrounds(screen, scheme, scroll, n - 1) + row_backgrounds(
            screen.lines[scroll + n - 1],
            scheme,
            n - 1,
            shown_cells(screen, scroll + n - 1),
        )
    }
}

/// The number of rows of a view that lie on the screen.
pub open spec fn rows_in_view(screen: ScreenModel, scroll: int, visible: int) -> int {
    if scroll >= screen.lines.len() {
        0
    } else if visible <= screen.lines.len() - scroll {
        visible
    } else {
        screen.lines.len() - scroll
    }
}

/// The number of rows of a view that lie on the screen.
pub fn view_rows(screen: &Screen, scroll: usize, visible: usize) -> (n: usize)
    ensures
        n == rows_in_view(screen@, scroll as int, visible as int),
{
    if scroll >= screen.rows() {
        0
    } else if visible <= screen.rows() - scroll {
        visible
    } else {
        screen.rows() - scroll
    }
}

fn same_color(a: [u8; 4], b: [u8; 4]) -> (same: bool)
    ensures
        same == (a@ == b@),
{
    let same = a[0] == b[0] && a[1] == b[1] && a[2] == b[2] && a[3] == b[3];
    assert(same ==> a@ =~= b@);
    same
}

fn push_row(cells: &Vec<Cell>, n: usize, scheme: &ColorScheme, row: usize, out: &mut Vec<BackgroundCell>)
    requires
        n <= cells@.len(),
    ensures
        background_models(final(out)@) == background_models(old(out)@) + row_backgrounds(
            cells_model(cells@),
            *scheme,
            row as int,
            n as int,
        ),
{
    let ghost model = cells_model(cells@);
    let mut col: usize = 0;
    assert(background_models(out@) =~= background_models(old(out)@) + row_backgrounds(
        model,
        *scheme,
        row as int,
        0,
    ));
    while col < n
        invariant
            col <= n,
            n <= cells@.len(),
            model == cells_model(cells@),
            background_models(out@) == background_models(old(out)@) + row_backgrounds(
                model,
                *scheme,
                row as int,
                col as int,
            ),
        decreases n - col,
    {
        assert(model[col as int] == cells@[col as int]@);
        let attrs = cells[col].attrs;
        let color = if attrs.inverse {
            scheme.resolve_fg(attrs.fg)
        } else {
            scheme.resolve_bg(attrs.bg)
        };
        let ghost before = out@;
        if !same_color(color, scheme.background) {
            let cell = BackgroundCell { row, col, color };
            out.push(cell);
            assert(background_models(out@) =~= background_models(before).push(cell@));
        }
        col = col + 1;
        assert(background_models(out@) =~= background_models(old(out)@) + row_backgrounds(
            model,
            *scheme,
            row as int,
            col as int,
        ));
    }
}

/// The cells whose background is drawn in a view of `visible` rows that begins
/// `scroll` rows down the screen.
pub fn background_cells(screen: &Screen, scheme: &ColorScheme, scroll: usize, visible: usize) -> (cells:
    Vec<BackgroundCell>)
    ensures
        background_models(cells@) == backgrounds(
            screen@,
            *scheme,
            scroll as int,
            rows_in_view(screen@, scroll as int, visible as int),
        ),
{
    let n: usize = view_rows(screen, scroll, visible);
    let total: usize = screen.rows();
    let mut out: Vec<BackgroundCell> = Vec::new();
    let mut row: usize = 0;
    assert(background_models(out@) =~= Seq::empty());
    while row < n
        invariant
            row <= n,
            total == screen@.lines.len(),
            n > 0 ==> scroll + n <= total,
            background_models(out@) == backgrounds(screen@, *scheme, scroll as int, row as int),
        decreases n - row,
    {
        let line = screen.row(scroll + row);
        let shown: usize = if screen.cols() <= line.len() {
            screen.cols()
        } else {
            line.len()
        };
        push_row(line, shown, scheme, row, &mut out);
        row = row + 1;
    }
    out
}

} // verus!

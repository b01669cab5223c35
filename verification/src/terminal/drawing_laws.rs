//! What a planned frame shows of each cell.

use vstd::prelude::*;

use crate::terminal::draw::{
    background_end, background_runs_from, blocks_end, border_column, border_of, covers,
    drawn_cursor, foreground_from, highlights_from, hover_underlines_of, is_block,
    lemma_background_end, lemma_blocks_end, smaller, underlines_from, BackgroundRun, Cursor,
    ForegroundItem, Highlight, RowSpan, Underline,
};
use crate::terminal::hover::CodeBlock;
use crate::terminal::lookup::HoverUrl;
use crate::terminal::search::Match;
use crate::vt::{CellModel, Color, ScreenModel};

verus! {

/// The runs of a row lie within the drawn cells, from left to right, and each is as
/// long as its background goes on.
pub proof fn law_background_runs_in_order(cells: Seq<CellModel>, num: int)
    requires
        0 <= num <= usize::MAX,
    ensures
        ({
            let runs = background_runs_from(cells, num, 0);
            &&& forall|i: int|
                0 <= i < runs.len() ==> (#[trigger] runs[i]).start < runs[i].end <= num
            &&& forall|i: int, j: int|
                0 <= i < j < runs.len() ==> (#[trigger] runs[i]).end <= (#[trigger] runs[j]).start
            &&& forall|i: int|
                0 <= i < runs.len() && (#[trigger] runs[i]).end < num
                    ==> cells[runs[i].end as int].attrs.bg != Color::Rgb(
                    runs[i].r,
                    runs[i].g,
                    runs[i].b,
                )
        }),
{
    lemma_runs_in_order(cells, num, 0);
}

proof fn lemma_runs_in_order(cells: Seq<CellModel>, num: int, from: int)
    requires
        0 <= from <= num <= usize::MAX,
    ensures
        ({
            let runs = background_runs_from(cells, num, from);
            &&& forall|i: int|
                0 <= i < runs.len() ==> from <= (#[trigger] runs[i]).start < runs[i].end <= num
            &&& forall|i: int, j: int|
                0 <= i < j < runs.len() ==> (#[trigger] runs[i]).end <= (#[trigger] runs[j]).start
            &&& forall|i: int|
                0 <= i < runs.len() && (#[trigger] runs[i]).end < num
                    ==> cells[runs[i].end as int].attrs.bg != Color::Rgb(
                    runs[i].r,
                    runs[i].g,
                    runs[i].b,
                )
        }),
    decreases num - from,
{
    if from < num {
        match cells[from].attrs.bg {
            Color::Default => {
                lemma_runs_in_order(cells, num, from + 1);
            },
            Color::Rgb(r, g, b) => {
                let end = background_end(cells, num, cells[from].attrs.bg, from + 1);
                lemma_background_end(cells, num, cells[from].attrs.bg, from + 1);
                lemma_runs_in_order(cells, num, end);
                let rest = background_runs_from(cells, num, end);
                let run = BackgroundRun { start: from as usize, end: end as usize, r, g, b };
                assert(background_runs_from(cells, num, from) =~= seq![run] + rest);
            },
        }
    }
}

/// Whether an item draws a cell, and draws it as it is.
pub open spec fn draws(item: ForegroundItem, c: int) -> bool {
    match item {
        ForegroundItem::Blocks { start, end, .. } => start <= c < end,
        ForegroundItem::Text { col } => col == c,
    }
}

/// Whether an item is the right one for a cell: a full block of its colour, or its
/// text.
pub open spec fn fits_cell(item: ForegroundItem, cell: CellModel) -> bool {
    match item {
        ForegroundItem::Blocks { fg, dim, .. } => cell.grapheme == "█"@ && cell.attrs.fg == fg
            && cell.attrs.dim == dim,
        ForegroundItem::Text { .. } => cell.grapheme != "█"@ && cell.grapheme.len() > 0
            && cell.grapheme != " "@,
    }
}

/// Every drawn cell that shows something is drawn as what it shows, by one item,
/// and no other cell is drawn.
pub proof fn law_foreground_shows_every_cell(cells: Seq<CellModel>, num: int, c: int)
    requires
        0 <= num <= usize::MAX,
    ensures
        ({
            let items = foreground_from(cells, num, 0);
            &&& 0 <= c < num && cells[c].grapheme.len() > 0 && cells[c].grapheme != " "@
                ==> exists|i: int| 0 <= i < items.len() && draws(#[trigger] items[i], c)
            &&& forall|i: int|
                0 <= i < items.len() && draws(#[trigger] items[i], c) ==> 0 <= c < num && fits_cell(
                    items[i],
                    cells[c],
                )
            &&& forall|i: int, j: int|
                0 <= i < j < items.len() && draws(#[trigger] items[i], c) ==> !draws(
                    #[trigger] items[j],
                    c,
                )
        }),
{
    reveal_strlit(" ");
    reveal_strlit("█");
    assert(" "@[0] != "█"@[0]);
    lemma_foreground(cells, num, 0, c);
}

proof fn lemma_same_blocks(cells: Seq<CellModel>, num: int, fg: Color, dim: bool, c: int)
    requires
        c <= num,
    ensures
        forall|k: int|
            c <= k < blocks_end(cells, num, fg, dim, c) ==> is_block(#[trigger] cells[k], fg, dim),
    decreases num - c,
{
    if c < num && is_block(cells[c], fg, dim) {
        lemma_same_blocks(cells, num, fg, dim, c + 1);
    }
}

proof fn lemma_foreground(cells: Seq<CellModel>, num: int, from: int, c: int)
    requires
        0 <= from <= num <= usize::MAX,
        "█"@.len() > 0,
        "█"@ != " "@,
    ensures
        ({
            let items = foreground_from(cells, num, from);
            &&& from <= c < num && cells[c].grapheme.len() > 0 && cells[c].grapheme != " "@
                ==> exists|i: int| 0 <= i < items.len() && draws(#[trigger] items[i], c)
            &&& forall|i: int|
                0 <= i < items.len() && draws(#[trigger] items[i], c) ==> from <= c < num
                    && fits_cell(items[i], cells[c])
            &&& forall|i: int, j: int|
                0 <= i < j < items.len() && draws(#[trigger] items[i], c) ==> !draws(
                    #[trigger] items[j],
                    c,
                )
        }),
    decreases num - from,
{
    if from < num {
        let g = cells[from].grapheme;
        if !(g.len() > 0 && g != " "@) {
            lemma_foreground(cells, num, from + 1, c);
            assert(foreground_from(cells, num, from) == foreground_from(cells, num, from + 1));
        } else {
            let fg = cells[from].attrs.fg;
            let dim = cells[from].attrs.dim;
            let end = if g == "█"@ {
                blocks_end(cells, num, fg, dim, from + 1)
            } else {
                from + 1
            };
            if g == "█"@ {
                lemma_blocks_end(cells, num, fg, dim, from + 1);
                lemma_same_blocks(cells, num, fg, dim, from + 1);
            }
            let item = if g == "█"@ {
                ForegroundItem::Blocks { start: from as usize, end: end as usize, fg, dim }
            } else {
                ForegroundItem::Text { col: from as usize }
            };
            lemma_foreground(cells, num, end, c);
            let rest = foreground_from(cells, num, end);
            let all = foreground_from(cells, num, from);
            assert(all =~= seq![item] + rest);
            assert(all[0] == item);
            if from <= c < num && cells[c].grapheme.len() > 0 && cells[c].grapheme != " "@ {
                if c < end {
                    assert(draws(all[0], c));
                } else {
                    let i = choose|i: int| 0 <= i < rest.len() && draws(#[trigger] rest[i], c);
                    assert(all[i + 1] == rest[i]);
                }
            }
            assert forall|i: int| 0 <= i < all.len() && draws(#[trigger] all[i], c) implies from <= c
                < num && fits_cell(all[i], cells[c]) by {
                if i > 0 {
                    assert(all[i] == rest[i - 1]);
                } else if c > from {
                    assert(is_block(cells[c], fg, dim));
                }
            }
            assert forall|i: int, j: int|
                0 <= i < j < all.len() && draws(#[trigger] all[i], c) implies !draws(
                #[trigger] all[j],
                c,
            ) by {
                assert(all[j] == rest[j - 1]);
                if i > 0 {
                    assert(all[i] == rest[i - 1]);
                }
            }
        }
    }
}

/// The line under an address goes under each of its columns in view but those that
/// have a line of their own, in the colour of the cell.
pub proof fn law_line_under_the_address(
    h: HoverUrl,
    screen: ScreenModel,
    num_rows: int,
    num_cols: int,
    c: int,
)
    requires
        h.screen_row < num_rows <= screen.lines.len(),
        0 <= num_cols,
    ensures
        ({
            let lines = hover_underlines_of(Some(h), screen, num_rows, num_cols);
            let cells = screen.lines[h.screen_row as int];
            &&& (exists|i: int| 0 <= i < lines.len() && (#[trigger] lines[i]).col == c)
                <==> h.col_start <= c < h.col_end && c < num_cols && !(c < cells.len()
                && cells[c].attrs.underline)
            &&& forall|i: int|
                0 <= i < lines.len() && (#[trigger] lines[i]).col == c ==> lines[i].fg == (if c
                    < cells.len() {
                    cells[c].attrs.fg
                } else {
                    Color::Default
                })
        }),
        num_rows <= h.screen_row ==> hover_underlines_of(
            Some(h),
            screen,
            num_rows,
            num_cols,
        ).len() == 0,
        hover_underlines_of(None, screen, num_rows, num_cols).len() == 0,
{
    let cells = screen.lines[h.screen_row as int];
    lemma_underlines(cells, h.col_start as int, smaller(h.col_end as int, num_cols), c);
}

proof fn lemma_underlines(cells: Seq<CellModel>, from: int, to: int, c: int)
    requires
        0 <= from,
        to <= usize::MAX,
    ensures
        ({
            let lines = underlines_from(cells, from, to);
            &&& (exists|i: int| 0 <= i < lines.len() && (#[trigger] lines[i]).col == c) <==> from
                <= c < to && !(c < cells.len() && cells[c].attrs.underline)
            &&& forall|i: int|
                0 <= i < lines.len() && (#[trigger] lines[i]).col == c ==> lines[i].fg == (if c
                    < cells.len() {
                    cells[c].attrs.fg
                } else {
                    Color::Default
                })
        }),
    decreases to - from,
{
    if from < to {
        lemma_underlines(cells, from + 1, to, c);
        let rest = underlines_from(cells, from + 1, to);
        let all = underlines_from(cells, from, to);
        if !(from < cells.len() && cells[from].attrs.underline) {
            assert(all.len() == rest.len() + 1);
            assert(all[0].col == from);
            assert forall|i: int| 0 < i < all.len() implies #[trigger] all[i] == rest[i - 1] by {}
            if exists|i: int| 0 <= i < rest.len() && (#[trigger] rest[i]).col == c {
                let i = choose|i: int| 0 <= i < rest.len() && (#[trigger] rest[i]).col == c;
                assert(all[i + 1].col == c);
            }
            if exists|i: int| 0 <= i < all.len() && (#[trigger] all[i]).col == c {
                let i = choose|i: int| 0 <= i < all.len() && (#[trigger] all[i]).col == c;
                if i > 0 {
                    assert(rest[i - 1].col == c);
                }
            }
        }
    }
}

/// Whether a match takes in a cell.
pub open spec fn match_has(m: Match, row: int, col: int) -> bool {
    m.0 == row && m.1 <= col < m.1 + m.2
}

/// Whether a highlight takes in a cell.
pub open spec fn highlight_has(h: Highlight, row: int, col: int) -> bool {
    h.span.row == row && h.span.start <= col < h.span.end
}

/// Of the cells in view exactly those are highlighted that a match takes in, and as
/// those of the match in focus exactly the cells that this one takes in.
pub proof fn law_matches_are_highlighted(
    matches: Seq<Match>,
    focus: Option<usize>,
    num_rows: int,
    num_cols: int,
    row: int,
    col: int,
)
    requires
        matches.len() <= usize::MAX,
        0 <= num_cols <= usize::MAX,
    ensures
        ({
            let out = highlights_from(matches, focus, num_rows, num_cols, 0);
            &&& (exists|k: int| 0 <= k < out.len() && highlight_has(#[trigger] out[k], row, col))
                <==> row < num_rows && col < num_cols && exists|i: int|
                0 <= i < matches.len() && match_has(#[trigger] matches[i], row, col)
            &&& (exists|k: int|
                0 <= k < out.len() && (#[trigger] out[k]).current && highlight_has(
                    out[k],
                    row,
                    col,
                )) <==> row < num_rows && col < num_cols && focus is Some && focus->0
                < matches.len() && match_has(matches[focus->0 as int], row, col)
        }),
{
    lemma_highlights(matches, focus, num_rows, num_cols, 0, row, col);
}

proof fn lemma_highlights(
    matches: Seq<Match>,
    focus: Option<usize>,
    num_rows: int,
    num_cols: int,
    from: int,
    row: int,
    col: int,
)
    requires
        0 <= from <= matches.len() <= usize::MAX,
        0 <= num_cols <= usize::MAX,
    ensures
        ({
            let out = highlights_from(matches, focus, num_rows, num_cols, from);
            &&& (exists|k: int| 0 <= k < out.len() && highlight_has(#[trigger] out[k], row, col))
                <==> row < num_rows && col < num_cols && exists|i: int|
                from <= i < matches.len() && match_has(#[trigger] matches[i], row, col)
            &&& (exists|k: int|
                0 <= k < out.len() && (#[trigger] out[k]).current && highlight_has(
                    out[k],
                    row,
                    col,
                )) <==> row < num_rows && col < num_cols && focus is Some && from <= focus->0
                < matches.len() && match_has(matches[focus->0 as int], row, col)
        }),
    decreases matches.len() - from,
{
    if from < matches.len() {
        lemma_highlights(matches, focus, num_rows, num_cols, from + 1, row, col);
        let rest = highlights_from(matches, focus, num_rows, num_cols, from + 1);
        let out = highlights_from(matches, focus, num_rows, num_cols, from);
        let m = matches[from];
        let end = smaller(m.1 + m.2, num_cols);
        if m.0 < num_rows && m.1 < end {
            assert(out.len() == rest.len() + 1);
            assert(out[0] == (Highlight {
                span: RowSpan { row: m.0, start: m.1, end: end as usize },
                current: focus == Some(from as usize),
            }));
            assert forall|k: int| 0 < k < out.len() implies #[trigger] out[k] == rest[k - 1] by {}
            if exists|k: int| 0 <= k < rest.len() && highlight_has(#[trigger] rest[k], row, col) {
                let k = choose|k: int|
                    0 <= k < rest.len() && highlight_has(#[trigger] rest[k], row, col);
                assert(highlight_has(out[k + 1], row, col));
            }
            if exists|k: int| 0 <= k < out.len() && highlight_has(#[trigger] out[k], row, col) {
                let k = choose|k: int|
                    0 <= k < out.len() && highlight_has(#[trigger] out[k], row, col);
                if k > 0 {
                    assert(highlight_has(rest[k - 1], row, col));
                } else {
                    assert(match_has(matches[from], row, col));
                }
            }
            if exists|k: int|
                0 <= k < rest.len() && (#[trigger] rest[k]).current && highlight_has(
                    rest[k],
                    row,
                    col,
                ) {
                let k = choose|k: int|
                    0 <= k < rest.len() && (#[trigger] rest[k]).current && highlight_has(
                        rest[k],
                        row,
                        col,
                    );
                assert(out[k + 1].current && highlight_has(out[k + 1], row, col));
            }
            if exists|k: int|
                0 <= k < out.len() && (#[trigger] out[k]).current && highlight_has(
                    out[k],
                    row,
                    col,
                ) {
                let k = choose|k: int|
                    0 <= k < out.len() && (#[trigger] out[k]).current && highlight_has(
                        out[k],
                        row,
                        col,
                    );
                if k > 0 {
                    assert(rest[k - 1].current && highlight_has(rest[k - 1], row, col));
                }
            }
            if match_has(m, row, col) && row < num_rows && col < num_cols {
                assert(highlight_has(out[0], row, col));
            }
        }
    }
}

/// Whether a cell lies on the border of a block.
pub open spec fn on_border(b: CodeBlock, row: int, col: int) -> bool {
    ||| (row == b.top_row || row == b.bottom_row) && b.left_col <= col <= b.right_col
    ||| (col == b.left_col || col == b.right_col) && b.top_row < row < b.bottom_row
}

/// Of the rows in view exactly the cells on the border of the block are framed.
pub proof fn law_border_frames_the_block(b: CodeBlock, num_rows: int, row: int, col: int)
    requires
        b.left_col <= b.right_col < usize::MAX,
    ensures
        covers(border_of(b, num_rows), row, col) <==> row < num_rows && on_border(b, row, col),
{
    let top = crate::terminal::draw::border_row(b, b.top_row, num_rows);
    let bottom = crate::terminal::draw::border_row(b, b.bottom_row, num_rows);
    let left = border_column(b.left_col, num_rows, b.top_row + 1, b.bottom_row as int);
    let right = border_column(b.right_col, num_rows, b.top_row + 1, b.bottom_row as int);
    lemma_column_covers(b.left_col, num_rows, b.top_row + 1, b.bottom_row as int, row, col);
    lemma_column_covers(b.right_col, num_rows, b.top_row + 1, b.bottom_row as int, row, col);
    lemma_covers_together(top, bottom, row, col);
    lemma_covers_together(top + bottom, left, row, col);
    lemma_covers_together(top + bottom + left, right, row, col);
    if b.top_row < num_rows {
        assert(top[0].row == b.top_row);
        if row == b.top_row && b.left_col <= col <= b.right_col {
            assert(covers(top, row, col));
        }
    }
    if b.bottom_row < num_rows {
        assert(bottom[0].row == b.bottom_row);
        if row == b.bottom_row && b.left_col <= col <= b.right_col {
            assert(covers(bottom, row, col));
        }
    }
}

proof fn lemma_covers_together(a: Seq<RowSpan>, b: Seq<RowSpan>, row: int, col: int)
    ensures
        covers(a + b, row, col) <==> covers(a, row, col) || covers(b, row, col),
{
    let s = a + b;
    if covers(s, row, col) {
        let i = choose|i: int|
            0 <= i < s.len() && (#[trigger] s[i]).row == row && s[i].start <= col < s[i].end;
        if i < a.len() {
            assert(a[i] == s[i]);
        } else {
            assert(b[i - a.len()] == s[i]);
        }
    }
    if covers(a, row, col) {
        let i = choose|i: int|
            0 <= i < a.len() && (#[trigger] a[i]).row == row && a[i].start <= col < a[i].end;
        assert(s[i] == a[i]);
    }
    if covers(b, row, col) {
        let i = choose|i: int|
            0 <= i < b.len() && (#[trigger] b[i]).row == row && b[i].start <= col < b[i].end;
        assert(s[a.len() + i] == b[i]);
    }
}

proof fn lemma_column_covers(at: usize, num_rows: int, from: int, to: int, row: int, col: int)
    requires
        at < usize::MAX,
        0 <= from,
        to <= usize::MAX,
    ensures
        covers(border_column(at, num_rows, from, to), row, col) <==> row < num_rows && from <= row
            < to && col == at,
    decreases to - from,
{
    if from < to {
        lemma_column_covers(at, num_rows, from + 1, to, row, col);
        let rest = border_column(at, num_rows, from + 1, to);
        if from < num_rows {
            let first = seq![RowSpan { row: from as usize, start: at, end: (at + 1) as usize }];
            lemma_covers_together(first, rest, row, col);
            assert(first[0].row == from);
            if row == from && col == at {
                assert(covers(first, row, col));
            }
        }
    }
}

/// A cursor is drawn where the program has it, and only in a pane with the focus;
/// one that the program hides, that lies out of view or is blinked away is not. Text
/// is drawn into it only where it is a block over a cell that shows something.
pub proof fn law_cursor_is_drawn_where_it_stands(
    cursor: Cursor,
    screen: ScreenModel,
    focused: bool,
    blink_visible: bool,
    num_rows: int,
    num_cols: int,
)
    requires
        num_rows <= screen.lines.len(),
    ensures
        ({
            let drawn = drawn_cursor(cursor, screen, focused, blink_visible, num_rows, num_cols);
            &&& !focused || !cursor.visible ==> drawn is None
            &&& cursor.blinking && !blink_visible ==> drawn is None
            &&& cursor.row >= num_rows || cursor.col >= num_cols ==> drawn is None
            &&& focused && cursor.visible && cursor.row < num_rows && cursor.col < num_cols
                && blink_visible ==> drawn is Some
            &&& !cursor.blinking ==> drawn == drawn_cursor(
                cursor,
                screen,
                focused,
                !blink_visible,
                num_rows,
                num_cols,
            )
            &&& drawn is Some ==> {
                &&& drawn->0.row == cursor.row
                &&& drawn->0.col == cursor.col
                &&& drawn->0.color == cursor.color
                &&& drawn->0.text ==> drawn->0.shape is Block
                &&& drawn->0.text ==> cursor.col < screen.lines[cursor.row as int].len()
                    && screen.lines[cursor.row as int][cursor.col as int].grapheme.len() > 0
                    && screen.lines[cursor.row as int][cursor.col as int].grapheme != " "@
                &&& drawn->0.shape is Block && cursor.col < screen.lines[cursor.row as int].len()
                    && screen.lines[cursor.row as int][cursor.col as int].grapheme.len() > 0
                    && screen.lines[cursor.row as int][cursor.col as int].grapheme != " "@
                    ==> drawn->0.text
                &&& cursor.shape_code == 0 <==> drawn->0.shape is Bar
                &&& cursor.shape_code == 2 <==> drawn->0.shape is Underline
                &&& cursor.shape_code == 3 <==> drawn->0.shape is BlockHollow
            }
        }),
{
}

} // verus!

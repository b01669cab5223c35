//! What lies at a cell: words, lines and addresses of web pages.

use vstd::prelude::*;

use crate::text::{chars_of, same_text, text_of};
use crate::vt::{cells_model, Cell, CellModel, Screen, ScreenModel, Selection, SelectionMode};

verus! {

// ---------------------------------------------------------------------------
// Words and lines
// ---------------------------------------------------------------------------
/// Characters that end a word.
pub open spec fn is_delimiter(c: char) -> bool {
    c == ' ' || c == '\t' || c == '"' || c == '\'' || c == '`' || c == '(' || c == ')' || c == '['
        || c == ']' || c == '{' || c == '}' || c == '<' || c == '>' || c == ',' || c == ';' || c
        == '|' || c == ':'
}

fn delimiter(c: char) -> (b: bool)
    ensures
        b == is_delimiter(c),
{
    c == ' ' || c == '\t' || c == '"' || c == '\'' || c == '`' || c == '(' || c == ')' || c == '['
        || c == ']' || c == '{' || c == '}' || c == '<' || c == '>' || c == ',' || c == ';' || c
        == '|' || c == ':'
}

/// Whether a cell holds nothing but a delimiter.
pub open spec fn delimits(g: Seq<char>) -> bool {
    g.len() == 1 && is_delimiter(g[0])
}

/// Whether a word ends before a cell: it is empty, or delimits.
pub open spec fn ends_word(g: Seq<char>) -> bool {
    g.len() == 0 || delimits(g)
}

fn cell_delimits(cell: &Cell) -> (b: bool)
    ensures
        b == delimits(cell@.grapheme),
{
    let n: usize = cell.grapheme.as_str().unicode_len();
    n == 1 && delimiter(cell.grapheme.as_str().get_char(0))
}

fn cell_ends_word(cell: &Cell) -> (b: bool)
    ensures
        b == ends_word(cell@.grapheme),
{
    let n: usize = cell.grapheme.as_str().unicode_len();
    n == 0 || cell_delimits(cell)
}

/// The number of cells of a row that are on the screen.
pub open spec fn cells_shown(screen: ScreenModel, row: int) -> nat {
    if screen.cols <= screen.lines[row].len() {
        screen.cols
    } else {
        screen.lines[row].len()
    }
}

/// Whether `start..=end` is the word around a cell that does not delimit: no
/// cell in it but the one asked about ends a word, and it cannot be extended.
pub open spec fn is_word_at(
    cells: Seq<CellModel>,
    shown: nat,
    col: int,
    start: int,
    end: int,
) -> bool {
    &&& 0 <= start <= col <= end
    &&& forall|i: int| start <= i < col ==> !ends_word(#[trigger] cells[i].grapheme)
    &&& forall|i: int| col < i <= end ==> !ends_word(#[trigger] cells[i].grapheme)
    &&& start == 0 || ends_word(cells[start - 1].grapheme)
    &&& end + 1 >= shown || ends_word(cells[end + 1].grapheme)
    &&& end == col || end < shown
}

/// There is one word at a cell.
pub proof fn law_one_word_at_a_cell(
    cells: Seq<CellModel>,
    shown: nat,
    col: int,
    a: (int, int),
    b: (int, int),
)
    requires
        col < shown,
        is_word_at(cells, shown, col, a.0, a.1),
        is_word_at(cells, shown, col, b.0, b.1),
    ensures
        a == b,
{
    if a.0 < b.0 {
        assert(!ends_word(cells[b.0 - 1].grapheme));
    }
    if b.0 < a.0 {
        assert(!ends_word(cells[a.0 - 1].grapheme));
    }
    if a.1 < b.1 {
        assert(!ends_word(cells[a.1 + 1].grapheme));
    }
    if b.1 < a.1 {
        assert(!ends_word(cells[b.1 + 1].grapheme));
    }
}

/// All cells of a word have the same word at them.
pub proof fn law_word_of_each_of_its_cells(
    cells: Seq<CellModel>,
    shown: nat,
    col: int,
    word: (int, int),
    other: int,
)
    requires
        col < shown,
        is_word_at(cells, shown, col, word.0, word.1),
        !ends_word(cells[col].grapheme),
        word.0 <= other <= word.1,
    ensures
        is_word_at(cells, shown, other, word.0, word.1),
{
}

/// Whether a cell has no word around it: it is off the screen, or delimits.
pub open spec fn stands_alone(screen: ScreenModel, row: int, col: int) -> bool {
    row >= screen.lines.len() || col >= screen.cols || delimits(screen.lines[row][col].grapheme)
}

/// The first column of the word at a column.
pub open spec fn word_start(cells: Seq<CellModel>, col: int) -> int
    decreases col,
{
    if col <= 0 || ends_word(cells[col - 1].grapheme) {
        col
    } else {
        word_start(cells, col - 1)
    }
}

/// The last column of the word at a column.
pub open spec fn word_end(cells: Seq<CellModel>, shown: nat, col: int) -> int
    decreases shown - col,
{
    if col + 1 >= shown || ends_word(cells[col + 1].grapheme) {
        col
    } else {
        word_end(cells, shown, col + 1)
    }
}

/// The first and the last column of the word at a cell; the cell alone where it
/// stands alone.
pub open spec fn word_bounds(screen: ScreenModel, row: int, col: int) -> (int, int) {
    if stands_alone(screen, row, col) {
        (col, col)
    } else {
        (
            word_start(screen.lines[row], col),
            word_end(screen.lines[row], cells_shown(screen, row), col),
        )
    }
}

/// The bounds of a word are those of the word at the cell: they take it in,
/// nothing between them ends a word, and they cannot be moved apart.
pub proof fn law_word_bounds(screen: ScreenModel, row: int, col: int)
    requires
        0 <= row,
        0 <= col,
        !stands_alone(screen, row, col),
        col < screen.lines[row].len(),
    ensures
        is_word_at(
            screen.lines[row],
            cells_shown(screen, row),
            col,
            word_bounds(screen, row, col).0,
            word_bounds(screen, row, col).1,
        ),
{
    lemma_word_start(screen.lines[row], col);
    lemma_word_end(screen.lines[row], cells_shown(screen, row), col);
}

proof fn lemma_word_start(cells: Seq<CellModel>, col: int)
    requires
        0 <= col,
    ensures
        0 <= word_start(cells, col) <= col,
        forall|i: int|
            word_start(cells, col) <= i < col ==> !ends_word(#[trigger] cells[i].grapheme),
        word_start(cells, col) == 0 || ends_word(cells[word_start(cells, col) - 1].grapheme),
    decreases col,
{
    if col > 0 && !ends_word(cells[col - 1].grapheme) {
        lemma_word_start(cells, col - 1);
    }
}

proof fn lemma_word_end(cells: Seq<CellModel>, shown: nat, col: int)
    requires
        0 <= col < shown,
    ensures
        col <= word_end(cells, shown, col) < shown,
        forall|i: int|
            col < i <= word_end(cells, shown, col) ==> !ends_word(#[trigger] cells[i].grapheme),
        word_end(cells, shown, col) + 1 >= shown || ends_word(
            cells[word_end(cells, shown, col) + 1].grapheme,
        ),
    decreases shown - col,
{
    if col + 1 < shown && !ends_word(cells[col + 1].grapheme) {
        lemma_word_end(cells, shown, col + 1);
    }
}

/// Whether a row of the screen has a cell at a column of the screen.
pub open spec fn row_reaches(screen: ScreenModel, row: int, col: int) -> bool {
    row < screen.lines.len() && col < screen.cols ==> col < screen.lines[row].len()
}

/// The first and the last column of the word at a cell.
pub fn find_word_boundaries(screen: &Screen, row: usize, col: usize) -> (bounds: (usize, usize))
    requires
        row_reaches(screen@, row as int, col as int),
    ensures
        bounds.0 == word_bounds(screen@, row as int, col as int).0,
        bounds.1 == word_bounds(screen@, row as int, col as int).1,
{
    let num_cols: usize = screen.cols();
    if row >= screen.rows() || col >= num_cols {
        return (col, col);
    }
    let cells = screen.row(row);
    let ghost model = screen@.lines[row as int];
    assert(model[col as int] == cells@[col as int]@);
    if cell_delimits(&cells[col]) {
        return (col, col);
    }
    let mut start: usize = col;
    while start > 0 && !cell_ends_word(&cells[start - 1])
        invariant
            start <= col,
            col < cells@.len(),
            model == cells_model(cells@),
            word_start(model, col as int) == word_start(model, start as int),
        decreases start,
    {
        assert(model[start - 1] == cells@[start - 1]@);
        start = start - 1;
    }
    assert(start > 0 ==> model[start - 1] == cells@[start - 1]@);
    let shown: usize = if num_cols <= cells.len() {
        num_cols
    } else {
        cells.len()
    };
    let mut end: usize = col;
    while end < shown - 1 && !cell_ends_word(&cells[end + 1])
        invariant
            col <= end,
            shown > 0,
            end < shown,
            shown <= cells@.len(),
            model == cells_model(cells@),
            word_end(model, shown as nat, col as int) == word_end(
                model,
                shown as nat,
                end as int,
            ),
        decreases shown - end,
    {
        assert(model[end + 1] == cells@[end + 1]@);
        end = end + 1;
    }
    assert(end + 1 < shown ==> model[end + 1] == cells@[end + 1]@);
    (start, end)
}

/// Whether a cell shows something.
pub open spec fn shows(g: Seq<char>) -> bool {
    g.len() > 0 && g != " "@
}

pub(crate) fn cell_shows(cell: &Cell) -> (b: bool)
    ensures
        b == shows(cell@.grapheme),
{
    let n: usize = cell.grapheme.as_str().unicode_len();
    n > 0 && !same_text(cell.grapheme.as_str(), " ")
}

/// The last column of a row that shows something; 0 where none does.
pub open spec fn last_shown(cells: Seq<CellModel>) -> int
    decreases cells.len(),
{
    if cells.len() == 0 {
        0
    } else if shows(cells.last().grapheme) {
        cells.len() - 1
    } else {
        last_shown(cells.drop_last())
    }
}

/// The last column of a row that shows something; 0 where none does, or where
/// there is no such row.
pub fn last_non_whitespace_col(screen: &Screen, row: usize) -> (col: usize)
    ensures
        col == if row < screen@.lines.len() {
            last_shown(screen@.lines[row as int])
        } else {
            0
        },
{
    if row >= screen.rows() {
        return 0;
    }
    let cells = screen.row(row);
    let ghost model = screen@.lines[row as int];
    let mut last: usize = 0;
    let mut i: usize = 0;
    while i < cells.len()
        invariant
            i <= cells@.len(),
            model == cells_model(cells@),
            last == last_shown(model.take(i as int)),
        decreases cells@.len() - i,
    {
        assert(model[i as int] == cells@[i as int]@);
        if cell_shows(&cells[i]) {
            last = i;
        }
        i = i + 1;
        assert(model.take(i as int).drop_last() =~= model.take(i - 1));
    }
    assert(model.take(i as int) =~= model);
    last
}

/// The selection of everything in view, given the size of the view and the row
/// of the scrollback at which it starts. There is none where the view is empty.
pub fn select_all_visible(rows: usize, cols: usize, viewport_offset: usize, screen: &Screen) -> (sel:
    Option<Selection>)
    requires
        viewport_offset + rows <= usize::MAX,
    ensures
        if rows == 0 || cols == 0 {
            sel is None
        } else {
            sel matches Some(s) && s.start == (viewport_offset, 0usize) && s.end.0
                == viewport_offset + rows - 1 && s.end.1 == last_col_selected(
                screen@,
                rows - 1,
                cols as int,
            ) && s.mode == SelectionMode::Normal
        },
{
    if rows == 0 || cols == 0 {
        return None;
    }
    let shown: usize = last_non_whitespace_col(screen, rows - 1);
    let last_col: usize = if shown >= cols - 1 {
        shown
    } else {
        cols - 1
    };
    let mut sel = Selection::new(viewport_offset, 0, SelectionMode::Normal);
    sel.update(viewport_offset + (rows - 1), last_col);
    Some(sel)
}

/// The last column of a selection of everything in view.
pub open spec fn last_col_selected(screen: ScreenModel, last_row: int, cols: int) -> int {
    let shown = if last_row < screen.lines.len() {
        last_shown(screen.lines[last_row])
    } else {
        0
    };
    if shown >= cols - 1 {
        shown
    } else {
        cols - 1
    }
}

// ---------------------------------------------------------------------------
// Addresses
// ---------------------------------------------------------------------------
/// An address under the pointer.
#[derive(Debug, PartialEq, Eq)]
pub struct HoverUrl {
    pub url: String,
    pub screen_row: usize,
    pub col_start: usize,
    /// One past the last column.
    pub col_end: usize,
}

/// The same as a mathematical value.
pub ghost struct HoverModel {
    pub url: Seq<char>,
    pub screen_row: int,
    pub col_start: int,
    pub col_end: int,
}

impl View for HoverUrl {
    type V = HoverModel;

    open spec fn view(&self) -> HoverModel {
        HoverModel {
            url: self.url@,
            screen_row: self.screen_row as int,
            col_start: self.col_start as int,
            col_end: self.col_end as int,
        }
    }
}

/// Characters that end an address.
pub open spec fn ends_url(c: char) -> bool {
    c == ' ' || c == '\t' || c == '"' || c == '\'' || c == '<' || c == '>' || c == '{' || c == '}'
        || c == '|' || c == '\\' || c == '^' || c == '`' || c == '[' || c == ']'
}

fn url_ender(c: char) -> (b: bool)
    ensures
        b == ends_url(c),
{
    c == ' ' || c == '\t' || c == '"' || c == '\'' || c == '<' || c == '>' || c == '{' || c == '}'
        || c == '|' || c == '\\' || c == '^' || c == '`' || c == '[' || c == ']'
}

/// Punctuation that does not count as part of an address at its end.
pub open spec fn is_stop(c: char) -> bool {
    c == '.' || c == ',' || c == ';' || c == ':' || c == ')' || c == ']'
}

/// Whether a text stands at a position of a line.
pub open spec fn stands_at(line: Seq<char>, p: int, text: Seq<char>) -> bool {
    0 <= p && p + text.len() <= line.len() && line.subrange(p, p + text.len()) == text
}

pub(crate) fn text_at(line: &Vec<char>, p: usize, text: &Vec<char>) -> (b: bool)
    requires
        p <= line@.len(),
    ensures
        b == stands_at(line@, p as int, text@),
{
    if text.len() > line.len() - p {
        return false;
    }
    let mut i: usize = 0;
    while i < text.len()
        invariant
            i <= text@.len(),
            p + text@.len() <= line@.len(),
            line@.len() <= usize::MAX,
            line@.subrange(p as int, p + i) == text@.take(i as int),
        decreases text@.len() - i,
    {
        if line[p + i] != text[i] {
            proof {
                if line@.subrange(p as int, p + text@.len()) == text@ {
                    assert(line@.subrange(p as int, p + text@.len())[i as int] == text@[i as int]);
                }
            }
            return false;
        }
        i = i + 1;
        assert(line@.subrange(p as int, p + i) =~= text@.take(i as int));
    }
    assert(text@.take(i as int) =~= text@);
    true
}

/// The first position from `from` on at which a text stands; the length of the
/// line where there is none.
pub open spec fn next_at(line: Seq<char>, from: int, text: Seq<char>) -> int
    decreases line.len() - from,
{
    if from >= line.len() {
        line.len() as int
    } else if stands_at(line, from, text) {
        from
    } else {
        next_at(line, from + 1, text)
    }
}

/// The first position from `from` on at which an address ends; the length of
/// the line where there is none.
pub open spec fn next_ender(line: Seq<char>, from: int) -> int
    decreases line.len() - from,
{
    if from >= line.len() {
        line.len() as int
    } else if ends_url(line[from]) {
        from
    } else {
        next_ender(line, from + 1)
    }
}

/// The end of `p..end` without the punctuation there.
pub open spec fn before_stops(line: Seq<char>, p: int, end: int) -> int
    decreases end - p,
{
    if end > p && is_stop(line[end - 1]) {
        before_stops(line, p, end - 1)
    } else {
        end
    }
}

/// The end of an address that begins at `p`.
pub open spec fn url_end(line: Seq<char>, p: int) -> int {
    before_stops(line, p, next_ender(line, p))
}

/// Whether an address begins at `p`.
pub open spec fn url_begins(line: Seq<char>, p: int) -> bool {
    stands_at(line, p, "https://"@) || stands_at(line, p, "http://"@)
}

/// The first column from `k` on whose text begins at `pos` of the line or
/// later.
pub open spec fn column_from(starts: Seq<int>, pos: int, k: int) -> int
    decreases starts.len() - k,
{
    if k >= starts.len() {
        starts.len() as int
    } else if starts[k] >= pos {
        k
    } else {
        column_from(starts, pos, k + 1)
    }
}

/// The address that takes in a column, looked for from a position of the line
/// on. An address takes in the columns whose text begins within it.
pub open spec fn url_over(line: Seq<char>, starts: Seq<int>, col: int, from: int) -> Option<
    (int, int),
>
    decreases line.len() - from,
{
    let p = next_at(line, from, "http"@);
    if from < 0 || p >= line.len() {
        None
    } else if !url_begins(line, p) {
        proof {
            lemma_next_at(line, from, "http"@);
        }
        url_over(line, starts, col, p + 1)
    } else if column_from(starts, p, 0) <= col < column_from(starts, url_end(line, p), 0) {
        Some((p, url_end(line, p)))
    } else {
        proof {
            lemma_next_at(line, from, "http"@);
            lemma_url_end(line, p);
        }
        url_over(line, starts, col, url_end(line, p))
    }
}

pub proof fn lemma_next_at(line: Seq<char>, from: int, text: Seq<char>)
    requires
        0 <= from,
    ensures
        next_at(line, from, text) >= from || next_at(line, from, text) == line.len(),
        next_at(line, from, text) <= line.len(),
        next_at(line, from, text) < line.len() ==> stands_at(
            line,
            next_at(line, from, text),
            text,
        ) && next_at(line, from, text) >= from,
    decreases line.len() - from,
{
    if from < line.len() && !stands_at(line, from, text) {
        lemma_next_at(line, from + 1, text);
    }
}

proof fn lemma_next_ender(line: Seq<char>, from: int)
    requires
        0 <= from <= line.len(),
    ensures
        from <= next_ender(line, from) <= line.len(),
    decreases line.len() - from,
{
    if from < line.len() && !ends_url(line[from]) {
        lemma_next_ender(line, from + 1);
    }
}

proof fn lemma_before_stops(line: Seq<char>, p: int, end: int, k: int)
    requires
        0 <= p <= k < end <= line.len(),
        !is_stop(line[k]),
    ensures
        k < before_stops(line, p, end) <= end,
    decreases end - p,
{
    if is_stop(line[end - 1]) {
        lemma_before_stops(line, p, end - 1, k);
    }
}

/// An address is never empty: its end lies beyond its scheme.
pub proof fn lemma_url_end(line: Seq<char>, p: int)
    requires
        url_begins(line, p),
    ensures
        p < url_end(line, p) <= line.len(),
{
    reveal_strlit("https://");
    reveal_strlit("http://");
    let h = if stands_at(line, p, "https://"@) {
        "https://"@
    } else {
        "http://"@
    };
    assert(line.subrange(p, p + h.len())[0] == 'h');
    assert(line[p] == 'h');
    lemma_next_ender(line, p + 1);
    assert(next_ender(line, p) == next_ender(line, p + 1));
    lemma_before_stops(line, p, next_ender(line, p), p);
}

/// The characters of the first `n` cells of a row, a space for an empty one.
pub open spec fn line_chars(cells: Seq<CellModel>, n: int) -> Seq<char>
    decreases n,
{
    if n <= 0 {
        Seq::empty()
    } else {
        line_chars(cells, n - 1) + spaced(cells[n - 1].grapheme)
    }
}

/// A cell's characters, a space for an empty one.
pub open spec fn spaced(g: Seq<char>) -> Seq<char> {
    if g.len() == 0 {
        seq![' ']
    } else {
        g
    }
}

/// Where in the line the characters of each cell begin.
pub open spec fn line_starts(cells: Seq<CellModel>, n: int) -> Seq<int> {
    Seq::new(n as nat, |k: int| line_chars(cells, k).len() as int)
}

/// The address at a cell.
pub open spec fn url_at(screen: ScreenModel, row: int, col: int) -> Option<HoverModel> {
    if row >= screen.lines.len() {
        None
    } else {
        let n = cells_shown(screen, row) as int;
        let line = line_chars(screen.lines[row], n);
        let starts = line_starts(screen.lines[row], n);
        match url_over(line, starts, col, 0) {
            None => None,
            Some((p, end)) => Some(
                HoverModel {
                    url: line.subrange(p, end),
                    screen_row: row,
                    col_start: column_from(starts, p, 0),
                    col_end: column_from(starts, end, 0),
                },
            ),
        }
    }
}

/// An address at a cell takes in that cell, begins with its scheme, holds no
/// character that ends addresses, and does not end in punctuation.
pub proof fn law_url_at(screen: ScreenModel, row: int, col: int)
    requires
        0 <= row,
    ensures
        url_at(screen, row, col) matches Some(h) ==> h.col_start <= col < h.col_end && h.screen_row
            == row && url_begins(h.url, 0) && (forall|i: int|
            0 <= i < h.url.len() ==> !ends_url(#[trigger] h.url[i])) && !is_stop(h.url.last()),
{
    if row < screen.lines.len() {
        let n = cells_shown(screen, row) as int;
        let line = line_chars(screen.lines[row], n);
        let starts = line_starts(screen.lines[row], n);
        lemma_url_over(line, starts, col, 0);
        if let Some((p, end)) = url_over(line, starts, col, 0) {
            lemma_url_end(line, p);
            lemma_url_chars(line, p);
            let url = line.subrange(p, end);
            reveal_strlit("https://");
            reveal_strlit("http://");
            if stands_at(line, p, "https://"@) {
                assert(url.subrange(0, 8) =~= "https://"@) by {
                    assert(line.subrange(p, p + 8) == "https://"@);
                    lemma_scheme_within(line, p, "https://"@);
                    assert(url.subrange(0, 8) =~= line.subrange(p, p + 8));
                }
            } else {
                assert(url.subrange(0, 7) =~= "http://"@) by {
                    assert(line.subrange(p, p + 7) == "http://"@);
                    lemma_scheme_within(line, p, "http://"@);
                    assert(url.subrange(0, 7) =~= line.subrange(p, p + 7));
                }
            }
            assert forall|i: int| 0 <= i < url.len() implies !ends_url(#[trigger] url[i]) by {
                assert(url[i] == line[p + i]);
            }
            assert(url.last() == line[end - 1]);
            if stands_at(line, p, "https://"@) {
                lemma_scheme_within(line, p, "https://"@);
                assert(stands_at(url, 0, "https://"@));
            } else {
                lemma_scheme_within(line, p, "http://"@);
                assert(stands_at(url, 0, "http://"@));
            }
            assert(url_begins(url, 0));
        }
    }
}

/// Whether the text of an address from `p` to `e` goes on to `z` and no further:
/// nothing before `z` ends addresses, `z` does or is the end of the line, and
/// between `e` and `z` there is only punctuation.
pub open spec fn goes_on_to(line: Seq<char>, p: int, e: int, z: int) -> bool {
    &&& e <= z <= line.len()
    &&& forall|i: int| p <= i < z ==> !ends_url(#[trigger] line[i])
    &&& z < line.len() ==> ends_url(line[z])
    &&& forall|i: int| e <= i < z ==> is_stop(#[trigger] line[i])
}

/// Whether an address stands at `p..e` of a line: it begins with a scheme, goes
/// on to the next character that ends addresses, and leaves out the punctuation
/// before that.
pub open spec fn is_address(line: Seq<char>, p: int, e: int) -> bool {
    &&& url_begins(line, p)
    &&& p < e <= line.len()
    &&& !is_stop(line[e - 1])
    &&& exists|z: int| #[trigger] goes_on_to(line, p, e, z)
}

/// Whether the text of a column begins within `p..e` of the line.
pub open spec fn begins_within(starts: Seq<int>, col: int, p: int, e: int) -> bool {
    0 <= col < starts.len() && p <= starts[col] < e
}

/// The address at a cell is found wherever one takes in the cell, the only one
/// or not: there is none exactly where no address of the row does. What is found
/// takes in exactly the columns whose text begins within it, and is no part of
/// an address that begins before it.
pub proof fn law_every_address_is_found(screen: ScreenModel, row: int, col: int)
    requires
        0 <= row < screen.lines.len(),
        0 <= col,
    ensures
        cells_shown(screen, row) <= screen.cols,
        cells_shown(screen, row) <= screen.lines[row].len(),
        cells_shown(screen, row) == screen.cols || cells_shown(screen, row)
            == screen.lines[row].len(),
        ({
            let n = cells_shown(screen, row) as int;
            let line = line_chars(screen.lines[row], n);
            let starts = line_starts(screen.lines[row], n);
            match url_at(screen, row, col) {
                None => forall|p: int, e: int| #[trigger]
                    is_address(line, p, e) ==> !begins_within(starts, col, p, e),
                Some(h) => exists|p: int, e: int| #[trigger]
                    is_address(line, p, e) && begins_within(starts, col, p, e) && h.url
                        == line.subrange(p, e) && (forall|k: int|
                        h.col_start <= k < h.col_end <==> #[trigger] begins_within(
                            starts,
                            k,
                            p,
                            e,
                        )) && (forall|a: int, b: int| #[trigger]
                        is_address(line, a, b) && a < p ==> b <= p),
            }
        }),
{
    let n = cells_shown(screen, row) as int;
    let line = line_chars(screen.lines[row], n);
    let starts = line_starts(screen.lines[row], n);
    lemma_starts_grow(screen.lines[row], n);
    lemma_found_over(line, starts, col, 0);
    if let Some((p, e)) = url_over(line, starts, col, 0) {
        lemma_columns_within(starts, p, e);
    }
}

/// Each cell has its own text in the line, a space where it is empty, from where
/// its text begins to where that of the next one does.
pub proof fn law_cells_in_the_line(cells: Seq<CellModel>, n: int, k: int)
    requires
        0 <= k < n <= cells.len(),
    ensures
        line_starts(cells, n).len() == n,
        line_starts(cells, n)[0] == 0,
        k + 1 < n ==> line_starts(cells, n)[k + 1] == line_starts(cells, n)[k] + spaced(
            cells[k].grapheme,
        ).len(),
        k + 1 == n ==> line_chars(cells, n).len() == line_starts(cells, n)[k] + spaced(
            cells[k].grapheme,
        ).len(),
        stands_at(line_chars(cells, n), line_starts(cells, n)[k], spaced(cells[k].grapheme)),
        cells[k].grapheme.len() > 0 ==> spaced(cells[k].grapheme) == cells[k].grapheme,
        cells[k].grapheme.len() == 0 ==> spaced(cells[k].grapheme) == seq![' '],
    decreases n - k,
{
    assert(line_chars(cells, 0).len() == 0);
    let text = spaced(cells[k].grapheme);
    let at = line_chars(cells, k).len() as int;
    assert(line_chars(cells, k + 1) == line_chars(cells, k) + text);
    if k + 1 == n {
        assert(line_chars(cells, n).subrange(at, at + text.len()) =~= text);
    } else {
        law_cells_in_the_line(cells, n - 1, k);
        let before = line_chars(cells, n - 1);
        let all = line_chars(cells, n);
        assert(all == before + spaced(cells[n - 1].grapheme));
        assert(all.subrange(at, at + text.len()) =~= before.subrange(at, at + text.len()));
    }
}

/// An address begins with one of two schemes, character by character.
pub proof fn law_schemes_of_addresses(line: Seq<char>, p: int)
    ensures
        url_begins(line, p) <==> 0 <= p && ((p + 7 <= line.len() && line.subrange(p, p + 7) == seq![
            'h', 't', 't', 'p', ':', '/', '/',
        ]) || (p + 8 <= line.len() && line.subrange(p, p + 8) == seq![
            'h', 't', 't', 'p', 's', ':', '/', '/',
        ])),
{
    reveal_strlit("http://");
    reveal_strlit("https://");
    assert("http://"@ =~= seq!['h', 't', 't', 'p', ':', '/', '/']);
    assert("https://"@ =~= seq!['h', 't', 't', 'p', 's', ':', '/', '/']);
}

/// The characters that end an address, and those that do not belong to its end.
pub proof fn law_characters_of_addresses(c: char)
    ensures
        ends_url(c) <==> seq![
            ' ', '\t', '"', '\'', '<', '>', '{', '}', '|', '\\', '^', '`', '[', ']',
        ].contains(c),
        is_stop(c) <==> seq!['.', ',', ';', ':', ')', ']'].contains(c),
{
    let enders = seq![
        ' ', '\t', '"', '\'', '<', '>', '{', '}', '|', '\\', '^', '`', '[', ']',
    ];
    let stops = seq!['.', ',', ';', ':', ')', ']'];
    assert(enders[0] == ' ' && enders[1] == '\t' && enders[2] == '"' && enders[3] == '\''
        && enders[4] == '<' && enders[5] == '>' && enders[6] == '{' && enders[7] == '}'
        && enders[8] == '|' && enders[9] == '\\' && enders[10] == '^' && enders[11] == '`'
        && enders[12] == '[' && enders[13] == ']');
    assert(stops[0] == '.' && stops[1] == ',' && stops[2] == ';' && stops[3] == ':' && stops[4]
        == ')' && stops[5] == ']');
}

proof fn lemma_starts_grow(cells: Seq<CellModel>, n: int)
    requires
        0 <= n,
    ensures
        forall|i: int, j: int|
            0 <= i < j < n ==> #[trigger] line_starts(cells, n)[i] < #[trigger] line_starts(
                cells,
                n,
            )[j],
    decreases n,
{
    if n > 0 {
        lemma_starts_grow(cells, n - 1);
        assert forall|i: int, j: int| 0 <= i < j < n implies #[trigger] line_starts(cells, n)[i]
            < #[trigger] line_starts(cells, n)[j] by {
            if j < n - 1 {
                assert(line_starts(cells, n - 1)[i] < line_starts(cells, n - 1)[j]);
            } else {
                assert(line_chars(cells, n - 1) == line_chars(cells, n - 2) + spaced(
                    cells[n - 2].grapheme,
                ));
                if i < n - 2 {
                    assert(line_starts(cells, n - 1)[i] < line_starts(cells, n - 1)[n - 2]);
                }
            }
        }
    }
}

proof fn lemma_column_from(starts: Seq<int>, pos: int, k: int)
    requires
        0 <= k <= starts.len(),
    ensures
        k <= column_from(starts, pos, k) <= starts.len(),
        forall|j: int| k <= j < column_from(starts, pos, k) ==> #[trigger] starts[j] < pos,
        column_from(starts, pos, k) < starts.len() ==> starts[column_from(starts, pos, k)] >= pos,
    decreases starts.len() - k,
{
    if k < starts.len() && starts[k] < pos {
        lemma_column_from(starts, pos, k + 1);
    }
}

proof fn lemma_columns_within(starts: Seq<int>, p: int, e: int)
    requires
        forall|i: int, j: int|
            0 <= i < j < starts.len() ==> #[trigger] starts[i] < #[trigger] starts[j],
    ensures
        forall|k: int|
            column_from(starts, p, 0) <= k < column_from(starts, e, 0)
                <==> #[trigger] begins_within(starts, k, p, e),
{
    lemma_column_from(starts, p, 0);
    lemma_column_from(starts, e, 0);
}

/// An address stands wherever a scheme does, up to the end that is looked for.
proof fn lemma_address_at(line: Seq<char>, p: int)
    requires
        url_begins(line, p),
    ensures
        is_address(line, p, url_end(line, p)),
{
    lemma_url_end(line, p);
    lemma_url_chars(line, p);
    let z = next_ender(line, p);
    lemma_next_ender(line, p);
    lemma_ender_ends(line, p);
    assert forall|i: int| p <= i < z implies !ends_url(#[trigger] line[i]) by {
        lemma_no_ender_before(line, p, i);
    }
    lemma_stops_beyond(line, p, z);
    assert(goes_on_to(line, p, url_end(line, p), z));
}

proof fn lemma_ender_ends(line: Seq<char>, from: int)
    requires
        0 <= from <= line.len(),
    ensures
        next_ender(line, from) < line.len() ==> ends_url(line[next_ender(line, from)]),
    decreases line.len() - from,
{
    if from < line.len() && !ends_url(line[from]) {
        lemma_ender_ends(line, from + 1);
    }
}

proof fn lemma_stops_beyond(line: Seq<char>, p: int, end: int)
    requires
        p <= end,
    ensures
        before_stops(line, p, end) <= end,
        forall|i: int| before_stops(line, p, end) <= i < end ==> is_stop(#[trigger] line[i]),
    decreases end - p,
{
    if end > p && is_stop(line[end - 1]) {
        lemma_stops_beyond(line, p, end - 1);
    }
}

/// Of two addresses of which one begins within the other both end at the same
/// place.
proof fn lemma_overlapping_addresses(line: Seq<char>, a: int, b: int, p: int, e: int)
    requires
        is_address(line, a, b),
        is_address(line, p, e),
        a <= p < b,
    ensures
        b == e,
{
    let y = choose|z: int| #[trigger] goes_on_to(line, a, b, z);
    let z = choose|z: int| #[trigger] goes_on_to(line, p, e, z);
    if y < z {
        assert(!ends_url(line[y]));
    }
    if z < y {
        assert(!ends_url(line[z]));
    }
    if b < e {
        assert(is_stop(line[e - 1]));
    }
    if e < b {
        assert(is_stop(line[b - 1]));
    }
}

/// No scheme stands before the place that is looked for.
proof fn lemma_no_scheme_before(line: Seq<char>, from: int, p: int)
    requires
        0 <= from <= p < next_at(line, from, "http"@),
    ensures
        !url_begins(line, p),
    decreases line.len() - from,
{
    if from < line.len() && !stands_at(line, from, "http"@) {
        if p == from {
            reveal_strlit("http");
            reveal_strlit("http://");
            reveal_strlit("https://");
            if stands_at(line, p, "https://"@) {
                assert(line.subrange(p, p + 4) =~= line.subrange(p, p + 8).take(4));
                assert("https://"@.take(4) =~= "http"@);
            }
            if stands_at(line, p, "http://"@) {
                assert(line.subrange(p, p + 4) =~= line.subrange(p, p + 7).take(4));
                assert("http://"@.take(4) =~= "http"@);
            }
        } else {
            lemma_no_scheme_before(line, from + 1, p);
        }
    } else if p < line.len() {
        lemma_next_at(line, from, "http"@);
    }
}

proof fn lemma_found_over(line: Seq<char>, starts: Seq<int>, col: int, from: int)
    requires
        0 <= from,
        0 <= col,
        forall|i: int, j: int|
            0 <= i < j < starts.len() ==> #[trigger] starts[i] < #[trigger] starts[j],
        forall|p: int, e: int| #[trigger]
            is_address(line, p, e) && p < from ==> e <= from && !begins_within(starts, col, p, e),
    ensures
        match url_over(line, starts, col, from) {
            None => forall|p: int, e: int| #[trigger]
                is_address(line, p, e) ==> !begins_within(starts, col, p, e),
            Some((p, e)) => is_address(line, p, e) && begins_within(starts, col, p, e) && (forall|
                a: int,
                b: int,
            | #[trigger]
                is_address(line, a, b) && a < p ==> b <= p),
        },
    decreases line.len() - from,
{
    let p = next_at(line, from, "http"@);
    lemma_next_at(line, from, "http"@);
    assert forall|a: int, b: int| #[trigger] is_address(line, a, b) && a < p implies b <= from
        && !begins_within(starts, col, a, b) by {
        if a >= from {
            lemma_no_scheme_before(line, from, a);
        }
    }
    if p < line.len() {
        if !url_begins(line, p) {
            lemma_found_over(line, starts, col, p + 1);
        } else {
            let e = url_end(line, p);
            lemma_url_end(line, p);
            lemma_address_at(line, p);
            lemma_columns_within(starts, p, e);
            if !(column_from(starts, p, 0) <= col < column_from(starts, e, 0)) {
                assert(!begins_within(starts, col, p, e));
                assert forall|a: int, b: int| #[trigger]
                    is_address(line, a, b) && a < e implies b <= e && !begins_within(
                    starts,
                    col,
                    a,
                    b,
                ) by {
                    if a >= p {
                        lemma_overlapping_addresses(line, p, e, a, b);
                    }
                }
                lemma_found_over(line, starts, col, e);
            } else {
                assert(begins_within(starts, col, p, e));
            }
        }
    }
}

/// The scheme itself is part of the address.
proof fn lemma_scheme_within(line: Seq<char>, p: int, scheme: Seq<char>)
    requires
        stands_at(line, p, scheme),
        scheme == "https://"@ || scheme == "http://"@,
    ensures
        p + scheme.len() <= url_end(line, p),
{
    reveal_strlit("https://");
    reveal_strlit("http://");
    let n = scheme.len() as int;
    assert forall|i: int| p <= i < p + n implies !ends_url(#[trigger] line[i]) by {
        assert(line.subrange(p, p + n)[i - p] == line[i]);
    }
    lemma_ender_beyond(line, p, p + n);
    assert(line.subrange(p, p + n)[n - 1] == '/');
    assert(line[p + n - 1] == '/');
    lemma_next_ender(line, p);
    lemma_before_stops(line, p, next_ender(line, p), p + n - 1);
}

proof fn lemma_ender_beyond(line: Seq<char>, from: int, to: int)
    requires
        0 <= from <= to <= line.len(),
        forall|i: int| from <= i < to ==> !ends_url(#[trigger] line[i]),
    ensures
        next_ender(line, from) >= to,
    decreases to - from,
{
    if from < to {
        lemma_ender_beyond(line, from + 1, to);
    } else {
        lemma_next_ender(line, from);
    }
}

proof fn lemma_no_ender_before(line: Seq<char>, from: int, i: int)
    requires
        0 <= from <= i < next_ender(line, from),
        from <= line.len(),
    ensures
        !ends_url(line[i]),
    decreases line.len() - from,
{
    if from < i {
        lemma_no_ender_before(line, from + 1, i);
    }
}

proof fn lemma_stops_gone(line: Seq<char>, p: int, end: int)
    requires
        p <= end,
    ensures
        p <= before_stops(line, p, end) <= end,
        before_stops(line, p, end) > p ==> !is_stop(line[before_stops(line, p, end) - 1]),
    decreases end - p,
{
    if end > p && is_stop(line[end - 1]) {
        lemma_stops_gone(line, p, end - 1);
    }
}

proof fn lemma_url_chars(line: Seq<char>, p: int)
    requires
        url_begins(line, p),
    ensures
        forall|i: int| p <= i < url_end(line, p) ==> !ends_url(#[trigger] line[i]),
        !is_stop(line[url_end(line, p) - 1]),
{
    lemma_url_end(line, p);
    lemma_next_ender(line, p);
    lemma_stops_gone(line, p, next_ender(line, p));
    assert forall|i: int| p <= i < url_end(line, p) implies !ends_url(#[trigger] line[i]) by {
        lemma_no_ender_before(line, p, i);
    }
}

proof fn lemma_url_over(line: Seq<char>, starts: Seq<int>, col: int, from: int)
    requires
        0 <= from,
    ensures
        url_over(line, starts, col, from) matches Some((p, end)) ==> url_begins(line, p) && end
            == url_end(line, p) && column_from(starts, p, 0) <= col < column_from(starts, end, 0),
    decreases line.len() - from,
{
    let p = next_at(line, from, "http"@);
    lemma_next_at(line, from, "http"@);
    if p < line.len() {
        if !url_begins(line, p) {
            lemma_url_over(line, starts, col, p + 1);
        } else if !(column_from(starts, p, 0) <= col < column_from(starts, url_end(line, p), 0)) {
            lemma_url_end(line, p);
            lemma_url_over(line, starts, col, url_end(line, p));
        }
    }
}

fn find_text(line: &Vec<char>, from: usize, text: &Vec<char>) -> (p: usize)
    requires
        from <= line@.len(),
    ensures
        p == next_at(line@, from as int, text@),
        from <= p <= line@.len(),
{
    let mut p: usize = from;
    while p < line.len() && !text_at(line, p, text)
        invariant
            from <= p <= line@.len(),
            next_at(line@, from as int, text@) == next_at(line@, p as int, text@),
        decreases line@.len() - p,
    {
        p = p + 1;
    }
    p
}

fn find_ender(line: &Vec<char>, from: usize) -> (p: usize)
    requires
        from <= line@.len(),
    ensures
        p == next_ender(line@, from as int),
        from <= p <= line@.len(),
{
    let mut p: usize = from;
    while p < line.len() && !url_ender(line[p])
        invariant
            from <= p <= line@.len(),
            next_ender(line@, from as int) == next_ender(line@, p as int),
        decreases line@.len() - p,
    {
        p = p + 1;
    }
    p
}

fn strip_stops(line: &Vec<char>, p: usize, end: usize) -> (e: usize)
    requires
        p <= end <= line@.len(),
    ensures
        e == before_stops(line@, p as int, end as int),
        p <= e <= end,
{
    let mut e: usize = end;
    while e > p && (line[e - 1] == '.' || line[e - 1] == ',' || line[e - 1] == ';' || line[e - 1]
        == ':' || line[e - 1] == ')' || line[e - 1] == ']')
        invariant
            p <= e <= end,
            end <= line@.len(),
            before_stops(line@, p as int, end as int) == before_stops(line@, p as int, e as int),
        decreases e,
    {
        e = e - 1;
    }
    e
}

fn find_column(starts: &Vec<usize>, pos: usize) -> (k: usize)
    ensures
        k == column_from(positions(starts@), pos as int, 0),
        k <= starts@.len(),
{
    let mut k: usize = 0;
    while k < starts.len() && starts[k] < pos
        invariant
            k <= starts@.len(),
            column_from(positions(starts@), pos as int, 0) == column_from(
                positions(starts@),
                pos as int,
                k as int,
            ),
        decreases starts@.len() - k,
    {
        k = k + 1;
    }
    k
}

/// Positions as mathematical integers.
pub open spec fn positions(s: Seq<usize>) -> Seq<int> {
    Seq::new(s.len(), |i: int| s[i] as int)
}

fn chars_between(line: &Vec<char>, from: usize, to: usize) -> (s: String)
    requires
        from <= to <= line@.len(),
    ensures
        s@ == line@.subrange(from as int, to as int),
{
    let mut out: Vec<char> = Vec::new();
    let mut i: usize = from;
    while i < to
        invariant
            from <= i <= to,
            to <= line@.len(),
            out@ == line@.subrange(from as int, i as int),
        decreases to - i,
    {
        out.push(line[i]);
        i = i + 1;
        assert(out@ =~= line@.subrange(from as int, i as int));
    }
    text_of(out.as_slice())
}

/// The address of a web page at a cell.
pub fn detect_url_at(screen: &Screen, screen_row: usize, col: usize) -> (hover: Option<HoverUrl>)
    ensures
        match hover {
            Some(h) => url_at(screen@, screen_row as int, col as int) == Some(h@),
            None => url_at(screen@, screen_row as int, col as int) is None,
        },
{
    if screen_row >= screen.rows() {
        return None;
    }
    let cells = screen.row(screen_row);
    let ghost model = screen@.lines[screen_row as int];
    let n: usize = if screen.cols() <= cells.len() {
        screen.cols()
    } else {
        cells.len()
    };
    let mut line: Vec<char> = Vec::new();
    let mut starts: Vec<usize> = Vec::new();
    let mut k: usize = 0;
    while k < n
        invariant
            k <= n,
            n <= cells@.len(),
            model == cells_model(cells@),
            line@ == line_chars(model, k as int),
            positions(starts@) == line_starts(model, k as int),
        decreases n - k,
    {
        let ghost before = starts@;
        let ghost at = line@.len() as int;
        starts.push(line.len());
        assert(positions(starts@) =~= positions(before).push(at));
        assert(model[k as int] == cells@[k as int]@);
        let mut text = chars_of(cells[k].grapheme.as_str());
        if text.len() == 0 {
            text.push(' ');
        }
        assert(text@ =~= spaced(model[k as int].grapheme));
        line.append(&mut text);
        assert(line_starts(model, k + 1) =~= line_starts(model, k as int).push(at));
        k = k + 1;
    }
    let http = chars_of("http");
    let https_scheme = chars_of("https://");
    let http_scheme = chars_of("http://");
    let ghost spots = positions(starts@);
    let mut from: usize = 0;
    while from < line.len()
        invariant
            from <= line@.len(),
            http@ == "http"@,
            https_scheme@ == "https://"@,
            http_scheme@ == "http://"@,
            spots == positions(starts@),
            n == starts@.len(),
            screen_row < screen@.lines.len(),
            model == screen@.lines[screen_row as int],
            n == cells_shown(screen@, screen_row as int),
            line@ == line_chars(model, n as int),
            spots == line_starts(model, n as int),
            url_over(line@, spots, col as int, 0) == url_over(
                line@,
                spots,
                col as int,
                from as int,
            ),
        decreases line@.len() - from,
    {
        let p: usize = find_text(&line, from, &http);
        if p >= line.len() {
            return None;
        }
        if !text_at(&line, p, &https_scheme) && !text_at(&line, p, &http_scheme) {
            from = p + 1;
        } else {
            let end: usize = strip_stops(&line, p, find_ender(&line, p));
            proof {
                lemma_url_end(line@, p as int);
            }
            let col_start: usize = find_column(&starts, p);
            let col_end: usize = find_column(&starts, end);
            if col >= col_start && col < col_end {
                return Some(
                    HoverUrl {
                        url: chars_between(&line, p, end),
                        screen_row,
                        col_start,
                        col_end,
                    },
                );
            }
            from = end;
        }
    }
    None
}

} // verus!

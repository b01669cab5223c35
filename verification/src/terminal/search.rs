//! Search in what a pane shows and has shown.

use vstd::prelude::*;

use crate::seqs::lemma_take_one_more;
use crate::terminal::lookup::{stands_at, text_at};
use crate::text::{
    chars_of, decimal, decimal_text, lower_char, lower_text, lowercase_of, lowercase_text_of,
};
use crate::vt::{cells_model, Cell, CellModel, Screen, ScreenModel};

verus! {

/// A place where the query was found: row, first column, number of columns.
pub type Match = (usize, usize, usize);

/// What is searched for and what was found.
#[derive(Debug, PartialEq, Eq)]
pub struct SearchState {
    /// Whether the search bar is open.
    pub active: bool,
    /// The query in lower case.
    pub query: String,
    /// All matches, in rows counted from the start of the scrollback.
    pub all_matches: Vec<Match>,
    /// Those in view, in rows of the view.
    pub matches: Vec<Match>,
    /// The match in focus among all.
    pub current_index: usize,
    /// The match in focus among those in view.
    pub current_viewport_index: Option<usize>,
}

/// The same as a mathematical value.
pub ghost struct SearchModel {
    pub active: bool,
    pub query: Seq<char>,
    pub all_matches: Seq<Match>,
    pub matches: Seq<Match>,
    pub current_index: int,
    pub current_viewport_index: Option<usize>,
}

impl View for SearchState {
    type V = SearchModel;

    open spec fn view(&self) -> SearchModel {
        SearchModel {
            active: self.active,
            query: self.query@,
            all_matches: self.all_matches@,
            matches: self.matches@,
            current_index: self.current_index as int,
            current_viewport_index: self.current_viewport_index,
        }
    }
}

// ---------------------------------------------------------------------------
// Matches in a row
// ---------------------------------------------------------------------------
/// A text in lower case, character by character.
pub open spec fn lowered(s: Seq<char>) -> Seq<char>
    decreases s.len(),
{
    if s.len() == 0 {
        Seq::empty()
    } else {
        lowered(s.drop_last()) + lowercase_of(s.last())
    }
}

/// The characters of a cell in lower case, a space for an empty one.
pub open spec fn lowered_cell(g: Seq<char>) -> Seq<char> {
    if g.len() == 0 {
        seq![' ']
    } else {
        lowered(g)
    }
}

/// The first `n` cells of a row in lower case.
pub open spec fn lowered_line(cells: Seq<CellModel>, n: int) -> Seq<char>
    decreases n,
{
    if n <= 0 {
        Seq::empty()
    } else {
        lowered_line(cells, n - 1) + lowered_cell(cells[n - 1].grapheme)
    }
}

/// For every character of that line the column it comes from.
pub open spec fn lowered_columns(cells: Seq<CellModel>, n: int) -> Seq<usize>
    decreases n,
{
    if n <= 0 {
        Seq::empty()
    } else {
        lowered_columns(cells, n - 1) + Seq::new(
            lowered_cell(cells[n - 1].grapheme).len(),
            |i: int| (n - 1) as usize,
        )
    }
}

/// The match that begins at a position of a line.
pub open spec fn match_at(columns: Seq<usize>, len: nat, row: int, p: int) -> Match {
    (row as usize, columns[p], (columns[p + len - 1] - columns[p] + 1) as usize)
}

/// All matches in a line from a position on.
pub open spec fn matches_from(
    line: Seq<char>,
    columns: Seq<usize>,
    query: Seq<char>,
    row: int,
    p: int,
) -> Seq<Match>
    decreases line.len() - p,
{
    if p >= line.len() {
        Seq::empty()
    } else if stands_at(line, p, query) {
        seq![match_at(columns, query.len(), row, p)] + matches_from(
            line,
            columns,
            query,
            row,
            p + 1,
        )
    } else {
        matches_from(line, columns, query, row, p + 1)
    }
}

/// The number of rows of a screen that are searched.
pub open spec fn rows_searched(screen: ScreenModel, rows: nat) -> nat {
    if screen.lines.len() <= rows {
        screen.lines.len()
    } else {
        rows
    }
}

/// The number of cells of a row that are searched.
pub open spec fn cells_searched(screen: ScreenModel, cols: nat, row: int) -> int {
    let n = if screen.cols <= cols {
        screen.cols
    } else {
        cols
    };
    if n <= screen.lines[row].len() {
        n as int
    } else {
        screen.lines[row].len() as int
    }
}

/// The matches in one row of a screen.
pub open spec fn row_matches(
    screen: ScreenModel,
    query: Seq<char>,
    row_offset: int,
    cols: nat,
    row: int,
) -> Seq<Match> {
    let n = cells_searched(screen, cols, row);
    matches_from(
        lowered_line(screen.lines[row], n),
        lowered_columns(screen.lines[row], n),
        query,
        row_offset + row,
        0,
    )
}

/// The matches in the first rows of a screen.
pub open spec fn screen_matches(
    screen: ScreenModel,
    query: Seq<char>,
    row_offset: int,
    cols: nat,
    rows: int,
) -> Seq<Match>
    decreases rows,
{
    if rows <= 0 {
        Seq::empty()
    } else {
        screen_matches(screen, query, row_offset, cols, rows - 1) + row_matches(
            screen,
            query,
            row_offset,
            cols,
            rows - 1,
        )
    }
}

/// Every place of a line at which the query stands is a match, and every match
/// is such a place.
pub proof fn law_matches_are_the_occurrences(
    line: Seq<char>,
    columns: Seq<usize>,
    query: Seq<char>,
    row: int,
    m: Match,
)
    ensures
        matches_from(line, columns, query, row, 0).contains(m) <==> exists|p: int|
            0 <= p < line.len() && #[trigger] stands_at(line, p, query) && m == match_at(
                columns,
                query.len(),
                row,
                p,
            ),
{
    lemma_matches_from(line, columns, query, row, 0, m);
}

proof fn lemma_matches_from(
    line: Seq<char>,
    columns: Seq<usize>,
    query: Seq<char>,
    row: int,
    from: int,
    m: Match,
)
    requires
        0 <= from,
    ensures
        matches_from(line, columns, query, row, from).contains(m) <==> exists|p: int|
            from <= p < line.len() && #[trigger] stands_at(line, p, query) && m == match_at(
                columns,
                query.len(),
                row,
                p,
            ),
    decreases line.len() - from,
{
    if from < line.len() {
        lemma_matches_from(line, columns, query, row, from + 1, m);
        let rest = matches_from(line, columns, query, row, from + 1);
        let here = match_at(columns, query.len(), row, from);
        if stands_at(line, from, query) {
            let all = seq![here] + rest;
            assert(all.contains(m) <==> m == here || rest.contains(m)) by {
                if all.contains(m) {
                    let i = choose|i: int| 0 <= i < all.len() && all[i] == m;
                    if i > 0 {
                        assert(rest[i - 1] == m);
                    }
                }
                if m == here {
                    assert(all[0] == m);
                }
                if rest.contains(m) {
                    let i = choose|i: int| 0 <= i < rest.len() && rest[i] == m;
                    assert(all[i + 1] == m);
                }
            }
        }
    }
}

proof fn lemma_columns(cells: Seq<CellModel>, n: int)
    requires
        0 <= n <= usize::MAX,
    ensures
        lowered_columns(cells, n).len() == lowered_line(cells, n).len(),
        forall|i: int| 0 <= i < lowered_columns(cells, n).len() ==> #[trigger] lowered_columns(
            cells,
            n,
        )[i] < n,
        forall|i: int, j: int|
            0 <= i <= j < lowered_columns(cells, n).len() ==> #[trigger] lowered_columns(cells, n)[i]
                <= #[trigger] lowered_columns(cells, n)[j],
    decreases n,
{
    if n > 0 {
        lemma_columns(cells, n - 1);
    }
}

fn push_lowered(line: &mut Vec<char>, s: &str)
    ensures
        final(line)@ == old(line)@ + lowered(s@),
{
    let chars = chars_of(s);
    let mut i: usize = 0;
    assert(s@.take(0) =~= Seq::empty());
    assert(line@ =~= old(line)@ + lowered(s@.take(0)));
    while i < chars.len()
        invariant
            i <= chars@.len(),
            chars@ == s@,
            line@ == old(line)@ + lowered(s@.take(i as int)),
        decreases chars@.len() - i,
    {
        let mut low = chars_of(lower_char(chars[i]).as_str());
        line.append(&mut low);
        i = i + 1;
        assert(s@.take(i as int).drop_last() =~= s@.take(i - 1));
        assert(line@ =~= old(line)@ + lowered(s@.take(i as int)));
    }
    assert(s@.take(i as int) =~= s@);
}

fn collect_row(
    cells: &Vec<Cell>,
    n: usize,
    query: &Vec<char>,
    abs_row: usize,
    out: &mut Vec<Match>,
)
    requires
        n <= cells@.len(),
        query@.len() > 0,
    ensures
        final(out)@ == old(out)@ + matches_from(
            lowered_line(cells_model(cells@), n as int),
            lowered_columns(cells_model(cells@), n as int),
            query@,
            abs_row as int,
            0,
        ),
{
    let ghost model = cells_model(cells@);
    let mut line: Vec<char> = Vec::new();
    let mut columns: Vec<usize> = Vec::new();
    let mut k: usize = 0;
    while k < n
        invariant
            k <= n,
            n <= cells@.len(),
            model == cells_model(cells@),
            line@ == lowered_line(model, k as int),
            columns@ == lowered_columns(model, k as int),
            line@.len() == columns@.len(),
        decreases n - k,
    {
        assert(model[k as int] == cells@[k as int]@);
        let g = cells[k].grapheme.as_str();
        let ghost at = line@;
        if g.is_empty() {
            line.push(' ');
        } else {
            push_lowered(&mut line, g);
        }
        let ghost text = lowered_cell(model[k as int].grapheme);
        assert(line@ =~= at + text);
        let ghost cols_before = columns@;
        while columns.len() < line.len()
            invariant
                cols_before.len() <= columns@.len() <= line@.len(),
                columns@ == cols_before + Seq::new(
                    (columns@.len() - cols_before.len()) as nat,
                    |i: int| k,
                ),
            decreases line@.len() - columns@.len(),
        {
            columns.push(k);
            assert(columns@ =~= cols_before + Seq::new(
                (columns@.len() - cols_before.len()) as nat,
                |i: int| k,
            ));
        }
        k = k + 1;
        assert(columns@ =~= lowered_columns(model, k as int));
    }
    proof {
        lemma_columns(model, n as int);
    }
    let mut p: usize = 0;
    let ghost all = matches_from(line@, columns@, query@, abs_row as int, 0);
    assert(out@ + all =~= old(out)@ + all);
    while p < line.len()
        invariant
            p <= line@.len(),
            query@.len() > 0,
            n <= cells@.len(),
            columns@.len() == line@.len(),
            forall|i: int| 0 <= i < columns@.len() ==> #[trigger] columns@[i] < n,
            forall|i: int, j: int|
                0 <= i <= j < columns@.len() ==> #[trigger] columns@[i] <= #[trigger] columns@[j],
            out@ + matches_from(line@, columns@, query@, abs_row as int, p as int) == old(out)@
                + all,
        decreases line@.len() - p,
    {
        if text_at(&line, p, query) {
            let first: usize = columns[p];
            let last: usize = columns[p + (query.len() - 1)];
            assert(columns@[p as int] <= columns@[p + query@.len() - 1]);
            assert(last < n);
            let ghost before = out@;
            out.push((abs_row, first, last - first + 1));
            let ghost rest = matches_from(line@, columns@, query@, abs_row as int, p + 1);
            assert(out@ + rest =~= before + (seq![
                match_at(columns@, query@.len(), abs_row as int, p as int),
            ] + rest));
        }
        p = p + 1;
    }
    assert(out@ =~= old(out)@ + all);
}

/// Appends to `out` every place of a screen at which the query stands, whatever
/// the case of the letters, in rows counted from `row_offset`.
pub fn collect_matches_from_viewport(
    screen: &Screen,
    query: &str,
    row_offset: usize,
    rows: usize,
    cols: usize,
    out: &mut Vec<Match>,
)
    requires
        query@.len() > 0,
        row_offset + screen@.lines.len() <= usize::MAX,
    ensures
        final(out)@ == old(out)@ + screen_matches(
            screen@,
            query@,
            row_offset as int,
            cols as nat,
            rows_searched(screen@, rows as nat) as int,
        ),
{
    let wanted = chars_of(query);
    let num_rows: usize = if screen.rows() <= rows {
        screen.rows()
    } else {
        rows
    };
    let num_cols: usize = if screen.cols() <= cols {
        screen.cols()
    } else {
        cols
    };
    let mut row: usize = 0;
    assert(out@ =~= old(out)@ + screen_matches(
        screen@,
        query@,
        row_offset as int,
        cols as nat,
        0,
    ));
    while row < num_rows
        invariant
            row <= num_rows,
            num_rows <= screen@.lines.len(),
            row_offset + screen@.lines.len() <= usize::MAX,
            wanted@ == query@,
            query@.len() > 0,
            num_cols == if screen@.cols <= cols {
                screen@.cols
            } else {
                cols as nat
            },
            out@ == old(out)@ + screen_matches(
                screen@,
                query@,
                row_offset as int,
                cols as nat,
                row as int,
            ),
        decreases num_rows - row,
    {
        let cells = screen.row(row);
        let n: usize = if num_cols <= cells.len() {
            num_cols
        } else {
            cells.len()
        };
        let ghost before = out@;
        collect_row(cells, n, &wanted, row_offset + row, out);
        row = row + 1;
        assert(out@ =~= old(out)@ + screen_matches(
            screen@,
            query@,
            row_offset as int,
            cols as nat,
            row as int,
        ));
    }
}

// ---------------------------------------------------------------------------
// Matches of several pages
// ---------------------------------------------------------------------------
/// Whether a match stands no later than another.
pub open spec fn no_later(a: Match, b: Match) -> bool {
    a.0 < b.0 || (a.0 == b.0 && a.1 <= b.1)
}

/// Sorted matches with one more, behind those that stand no later.
pub open spec fn with_match(s: Seq<Match>, m: Match) -> Seq<Match>
    decreases s.len(),
{
    if s.len() == 0 || no_later(s.last(), m) {
        s.push(m)
    } else {
        with_match(s.drop_last(), m).push(s.last())
    }
}

/// Matches in order of their places; those at one place stay in their order.
pub open spec fn in_order(s: Seq<Match>) -> Seq<Match>
    decreases s.len(),
{
    if s.len() == 0 {
        s
    } else {
        with_match(in_order(s.drop_last()), s.last())
    }
}

/// Matches without those that repeat the one before them.
pub open spec fn without_repeats(s: Seq<Match>) -> Seq<Match>
    decreases s.len(),
{
    if s.len() <= 1 {
        s
    } else if s[s.len() - 2] == s.last() {
        without_repeats(s.drop_last())
    } else {
        without_repeats(s.drop_last()).push(s.last())
    }
}

/// Whether matches are in order of their places.
pub open spec fn is_in_order(s: Seq<Match>) -> bool {
    forall|i: int, j: int| 0 <= i <= j < s.len() ==> no_later(#[trigger] s[i], #[trigger] s[j])
}

/// Sorting and dropping repeats gives matches in order, and neither loses nor
/// adds any.
pub proof fn law_settled_matches(s: Seq<Match>)
    ensures
        is_in_order(without_repeats(in_order(s))),
        forall|m: Match| #[trigger] without_repeats(in_order(s)).contains(m) <==> s.contains(m),
{
    lemma_in_order(s);
    lemma_without_repeats(in_order(s));
    assert forall|m: Match| #[trigger]
        without_repeats(in_order(s)).contains(m) <==> s.contains(m) by {
        assert(in_order(s).contains(m) <==> s.contains(m));
    }
}

proof fn lemma_with_match(s: Seq<Match>, m: Match)
    requires
        is_in_order(s),
    ensures
        is_in_order(with_match(s, m)),
        forall|x: Match| #[trigger] with_match(s, m).contains(x) <==> s.contains(x) || x == m,
        with_match(s, m).len() == s.len() + 1,
    decreases s.len(),
{
    let t = with_match(s, m);
    if s.len() == 0 || no_later(s.last(), m) {
        assert forall|i: int, j: int| 0 <= i <= j < t.len() implies no_later(
            #[trigger] t[i],
            #[trigger] t[j],
        ) by {
            if i < s.len() && j == s.len() {
                assert(no_later(s[i], s.last()));
            }
        }
        lemma_push_contains(s, m);
    } else {
        let rest = s.drop_last();
        lemma_with_match(rest, m);
        let u = with_match(rest, m);
        assert forall|i: int, j: int| 0 <= i <= j < t.len() implies no_later(
            #[trigger] t[i],
            #[trigger] t[j],
        ) by {
            if i < u.len() && j == u.len() {
                assert(u.contains(u[i]));
                assert(rest.contains(u[i]) || u[i] == m);
                if rest.contains(u[i]) {
                    let k = choose|k: int| 0 <= k < rest.len() && rest[k] == u[i];
                    assert(no_later(s[k], s.last()));
                }
            }
        }
        lemma_push_contains(u, s.last());
        lemma_push_contains(rest, s.last());
        assert(rest.push(s.last()) =~= s);
        assert forall|x: Match| #[trigger] t.contains(x) <==> s.contains(x) || x == m by {
            assert(u.contains(x) <==> rest.contains(x) || x == m);
            assert(u.push(s.last()).contains(x) <==> u.contains(x) || x == s.last());
            assert(rest.push(s.last()).contains(x) <==> rest.contains(x) || x == s.last());
        }
    }
}

proof fn lemma_push_contains(s: Seq<Match>, m: Match)
    ensures
        forall|x: Match| #[trigger] s.push(m).contains(x) <==> s.contains(x) || x == m,
{
    assert forall|x: Match| #[trigger] s.push(m).contains(x) <==> s.contains(x) || x == m by {
        let t = s.push(m);
        if t.contains(x) {
            let i = choose|i: int| 0 <= i < t.len() && t[i] == x;
            if i < s.len() {
                assert(s[i] == x);
            }
        }
        if s.contains(x) {
            let i = choose|i: int| 0 <= i < s.len() && s[i] == x;
            assert(t[i] == x);
        }
        if x == m {
            assert(t[s.len() as int] == x);
        }
    }
}

proof fn lemma_in_order(s: Seq<Match>)
    ensures
        is_in_order(in_order(s)),
        forall|m: Match| #[trigger] in_order(s).contains(m) <==> s.contains(m),
    decreases s.len(),
{
    if s.len() > 0 {
        let rest = s.drop_last();
        lemma_in_order(rest);
        lemma_with_match(in_order(rest), s.last());
        lemma_push_contains(rest, s.last());
        assert(rest.push(s.last()) =~= s);
        assert forall|m: Match| #[trigger] in_order(s).contains(m) <==> s.contains(m) by {
            assert(in_order(rest).contains(m) <==> rest.contains(m));
            assert(rest.push(s.last()).contains(m) <==> rest.contains(m) || m == s.last());
        }
    }
}

proof fn lemma_without_repeats(s: Seq<Match>)
    requires
        is_in_order(s),
    ensures
        is_in_order(without_repeats(s)),
        forall|m: Match| #[trigger] without_repeats(s).contains(m) <==> s.contains(m),
    decreases s.len(),
{
    if s.len() > 1 {
        let rest = s.drop_last();
        lemma_without_repeats(rest);
        lemma_push_contains(rest, s.last());
        assert(rest.push(s.last()) =~= s);
        let u = without_repeats(rest);
        if s[s.len() - 2] == s.last() {
            assert(rest[s.len() - 2] == s.last());
            assert(rest.contains(s.last()));
            assert forall|m: Match| #[trigger] without_repeats(s).contains(m) <==> s.contains(
                m,
            ) by {
                assert(rest.push(s.last()).contains(m) <==> rest.contains(m) || m == s.last());
            }
        } else {
            lemma_push_contains(u, s.last());
            let t = u.push(s.last());
            assert forall|i: int, j: int| 0 <= i <= j < t.len() implies no_later(
                #[trigger] t[i],
                #[trigger] t[j],
            ) by {
                if i < u.len() && j == u.len() {
                    assert(u.contains(u[i]));
                    let k = choose|k: int| 0 <= k < rest.len() && rest[k] == u[i];
                    assert(no_later(s[k], s.last()));
                }
            }
            assert forall|m: Match| #[trigger] without_repeats(s).contains(m) <==> s.contains(
                m,
            ) by {
                assert(u.push(s.last()).contains(m) <==> u.contains(m) || m == s.last());
                assert(rest.push(s.last()).contains(m) <==> rest.contains(m) || m == s.last());
            }
        }
    }
}

proof fn lemma_with_match_at(s: Seq<Match>, m: Match, i: int)
    requires
        0 <= i <= s.len(),
        i > 0 ==> no_later(s[i - 1], m),
        forall|j: int| i <= j < s.len() ==> !no_later(#[trigger] s[j], m),
    ensures
        with_match(s, m) == s.insert(i, m),
    decreases s.len(),
{
    if i == s.len() {
        assert(s.insert(i, m) =~= s.push(m));
    } else {
        lemma_with_match_at(s.drop_last(), m, i);
        assert(s.insert(i, m) =~= s.drop_last().insert(i, m).push(s.last()));
    }
}

fn sort_matches(all: &Vec<Match>) -> (sorted: Vec<Match>)
    ensures
        sorted@ == in_order(all@),
{
    let mut sorted: Vec<Match> = Vec::new();
    let mut k: usize = 0;
    while k < all.len()
        invariant
            k <= all@.len(),
            sorted@ == in_order(all@.take(k as int)),
            sorted@.len() == k,
        decreases all@.len() - k,
    {
        let m: Match = all[k];
        let mut i: usize = sorted.len();
        while i > 0 && !(sorted[i - 1].0 < m.0 || (sorted[i - 1].0 == m.0 && sorted[i - 1].1
            <= m.1))
            invariant
                i <= sorted@.len(),
                forall|j: int| i <= j < sorted@.len() ==> !no_later(#[trigger] sorted@[j], m),
            decreases i,
        {
            i = i - 1;
        }
        proof {
            lemma_with_match_at(sorted@, m, i as int);
            lemma_take_one_more(all@, k as int);
            assert(all@.take(k as int).push(m).drop_last() =~= all@.take(k as int));
        }
        sorted.insert(i, m);
        k = k + 1;
    }
    assert(all@.take(k as int) =~= all@);
    sorted
}

fn drop_repeats(all: &Vec<Match>) -> (kept: Vec<Match>)
    ensures
        kept@ == without_repeats(all@),
{
    let mut kept: Vec<Match> = Vec::new();
    let mut k: usize = 0;
    while k < all.len()
        invariant
            k <= all@.len(),
            kept@ == without_repeats(all@.take(k as int)),
        decreases all@.len() - k,
    {
        let m: Match = all[k];
        proof {
            lemma_take_one_more(all@, k as int);
            let t = all@.take(k + 1);
            assert(t.drop_last() =~= all@.take(k as int));
            assert(t.last() == m);
            if k > 0 {
                assert(t[t.len() - 2] == all@[k - 1]);
            }
        }
        let repeats = k > 0 && all[k - 1].0 == m.0 && all[k - 1].1 == m.1 && all[k - 1].2 == m.2;
        if !repeats {
            kept.push(m);
        }
        k = k + 1;
        assert(kept@ =~= without_repeats(all@.take(k as int)));
    }
    assert(all@.take(k as int) =~= all@);
    kept
}

/// A page of the scrollback as it was read: the row at which it starts and what
/// it showed.
#[derive(Debug, PartialEq, Eq)]
pub struct Page {
    pub offset: usize,
    pub screen: Screen,
}

/// By how many rows the view is moved on to read the next page, where `offset`
/// is the row at which it starts and `last` the greatest such row: by a page, or
/// by as much as is left.
pub open spec fn scan_move(offset: int, last: int, page_size: int) -> int {
    if page_size <= last - offset {
        page_size
    } else {
        last - offset
    }
}

/// The rows at which the pages start that are read from `offset` on.
pub open spec fn scan_offsets(offset: int, last: int, page_size: int) -> Seq<int>
    decreases last - offset,
{
    if offset >= last || page_size <= 0 {
        seq![offset]
    } else {
        seq![offset] + scan_offsets(
            offset + scan_move(offset, last, page_size),
            last,
            page_size,
        )
    }
}

/// The pages that are read from the top on leave out no row of the scrollback.
pub proof fn law_scan_reaches_every_row(total: int, len: int, row: int)
    requires
        0 < len,
        0 <= row < total,
    ensures
        exists|i: int|
            0 <= i < scan_offsets(0, last_offset(total, len), len).len() && (
            #[trigger] scan_offsets(0, last_offset(total, len), len)[i]) <= row < scan_offsets(
                0,
                last_offset(total, len),
                len,
            )[i] + len,
{
    lemma_scan_reaches(0, last_offset(total, len), len, row);
}

proof fn lemma_scan_reaches(offset: int, last: int, len: int, row: int)
    requires
        0 < len,
        offset <= last,
        offset <= row < last + len,
    ensures
        exists|i: int|
            0 <= i < scan_offsets(offset, last, len).len() && (#[trigger] scan_offsets(
                offset,
                last,
                len,
            )[i]) <= row < scan_offsets(offset, last, len)[i] + len,
    decreases last - offset,
{
    let all = scan_offsets(offset, last, len);
    if row < offset + len {
        assert(all[0] == offset);
    } else {
        let next = offset + scan_move(offset, last, len);
        lemma_scan_reaches(next, last, len, row);
        let rest = scan_offsets(next, last, len);
        let i = choose|i: int| 0 <= i < rest.len() && (#[trigger] rest[i]) <= row < rest[i] + len;
        assert(all[i + 1] == rest[i]);
    }
}

/// By how many rows the view is moved on to read the next page; none where the
/// last was read.
pub fn scan_step(offset: usize, last: usize, page_size: usize) -> (step: Option<usize>)
    ensures
        match step {
            Some(n) => offset < last && page_size > 0 && n == scan_move(
                offset as int,
                last as int,
                page_size as int,
            ),
            None => offset >= last || page_size == 0,
        },
{
    if offset >= last || page_size == 0 {
        return None;
    }
    let left: usize = last - offset;
    if page_size <= left {
        Some(page_size)
    } else {
        Some(left)
    }
}

/// The greatest row at which the view can start.
pub open spec fn last_offset(total: int, len: int) -> int {
    if total > len {
        total - len
    } else {
        0
    }
}

/// All matches of several pages, page by page.
pub open spec fn pages_matches(
    pages: Seq<(int, ScreenModel)>,
    query: Seq<char>,
    rows: nat,
    cols: nat,
) -> Seq<Match>
    decreases pages.len(),
{
    if pages.len() == 0 {
        Seq::empty()
    } else {
        pages_matches(pages.drop_last(), query, rows, cols) + screen_matches(
            pages.last().1,
            query,
            pages.last().0,
            cols,
            rows_searched(pages.last().1, rows) as int,
        )
    }
}

/// Pages as mathematical values.
pub open spec fn pages_model(pages: Seq<Page>) -> Seq<(int, ScreenModel)> {
    Seq::new(pages.len(), |i: int| (pages[i].offset as int, pages[i].screen@))
}

/// The matches within `start..end`, in rows from `start` on.
pub open spec fn in_view(all: Seq<Match>, start: int, end: int) -> Seq<Match>
    decreases all.len(),
{
    if all.len() == 0 {
        all
    } else if start <= all.last().0 < end {
        in_view(all.drop_last(), start, end).push(
            ((all.last().0 - start) as usize, all.last().1, all.last().2),
        )
    } else {
        in_view(all.drop_last(), start, end)
    }
}

/// The search with the matches in view found anew.
pub open spec fn viewed(m: SearchModel, start: int, end: int) -> SearchModel {
    SearchModel {
        matches: in_view(m.all_matches, start, end),
        current_viewport_index: if m.current_index < m.all_matches.len() && start
            <= m.all_matches[m.current_index].0 < end {
            Some(in_view(m.all_matches.take(m.current_index), start, end).len() as usize)
        } else {
            None
        },
        ..m
    }
}

/// A match with its row counted from the start of the view.
pub open spec fn counted_from(m: Match, start: int) -> Match {
    ((m.0 - start) as usize, m.1, m.2)
}

/// What is in view of some matches and of others behind them is in view of all,
/// in the same order; of one match it is that match, counted from the start of
/// the view, where its row lies in the view, and nothing elsewhere.
pub proof fn law_matches_in_view(a: Seq<Match>, b: Seq<Match>, m: Match, start: int, end: int)
    ensures
        in_view(a + b, start, end) == in_view(a, start, end) + in_view(b, start, end),
        start <= m.0 < end ==> in_view(seq![m], start, end) == seq![counted_from(m, start)],
        !(start <= m.0 < end) ==> in_view(seq![m], start, end).len() == 0,
    decreases b.len(),
{
    reveal_with_fuel(in_view, 2);
    assert(seq![m].drop_last() =~= Seq::empty());
    assert(in_view(Seq::<Match>::empty(), start, end) =~= Seq::empty());
    if start <= m.0 < end {
        assert(in_view(seq![m], start, end) =~= seq![counted_from(m, start)]);
    }
    if b.len() == 0 {
        assert(a + b =~= a);
        assert(in_view(a, start, end) + in_view(b, start, end) =~= in_view(a, start, end));
    } else {
        law_matches_in_view(a, b.drop_last(), m, start, end);
        assert((a + b).drop_last() =~= a + b.drop_last());
        assert((a + b).last() == b.last());
        assert(in_view(a + b, start, end) =~= in_view(a, start, end) + in_view(b, start, end));
    }
}

/// The match in focus is marked in the view exactly where its row lies in the
/// view, and the mark is on that match: it stands there with its row counted from
/// the start of the view, behind as many as are in view before it.
pub proof fn law_focus_in_view(m: SearchModel, start: int, end: int)
    requires
        0 <= start,
        0 <= m.current_index,
        m.all_matches.len() <= usize::MAX,
    ensures
        ({
            let v = viewed(m, start, end);
            let c = m.current_index;
            match v.current_viewport_index {
                Some(k) => {
                    &&& c < m.all_matches.len()
                    &&& start <= m.all_matches[c].0 < end
                    &&& k < v.matches.len()
                    &&& v.matches[k as int] == counted_from(m.all_matches[c], start)
                    &&& v.matches.take(k as int) == in_view(m.all_matches.take(c), start, end)
                },
                None => c >= m.all_matches.len() || !(start <= m.all_matches[c].0 < end),
            }
        }),
        viewed(m, start, end).all_matches == m.all_matches,
        viewed(m, start, end).current_index == m.current_index,
        viewed(m, start, end).query == m.query,
        viewed(m, start, end).active == m.active,
        forall|x: Match| #[trigger]
            viewed(m, start, end).matches.contains(x) <==> exists|i: int|
                0 <= i < m.all_matches.len() && start <= (#[trigger] m.all_matches[i]).0 < end && x
                    == counted_from(m.all_matches[i], start),
{
    let all = m.all_matches;
    let c = m.current_index;
    lemma_in_view_len(all, start, end);
    if c < all.len() {
        let before = all.take(c);
        let behind = all.skip(c + 1);
        let one = seq![all[c]];
        lemma_in_view_len(before, start, end);
        law_matches_in_view(before + one, behind, all[c], start, end);
        law_matches_in_view(before, one, all[c], start, end);
        assert(before + one + behind =~= all);
        if start <= all[c].0 < end {
            let seen = in_view(all, start, end);
            let k = in_view(before, start, end).len() as int;
            assert(seen == in_view(before, start, end) + seq![counted_from(all[c], start)]
                + in_view(behind, start, end));
            assert(seen[k] == counted_from(all[c], start));
            assert(seen.take(k) =~= in_view(before, start, end));
        }
    }
    assert forall|x: Match| #[trigger]
        viewed(m, start, end).matches.contains(x) <==> exists|i: int|
            0 <= i < all.len() && start <= (#[trigger] all[i]).0 < end && x == counted_from(
                all[i],
                start,
            ) by {
        lemma_in_view_contains(all, start, end, x);
    }
}

proof fn lemma_in_view_len(all: Seq<Match>, start: int, end: int)
    ensures
        in_view(all, start, end).len() <= all.len(),
    decreases all.len(),
{
    if all.len() > 0 {
        lemma_in_view_len(all.drop_last(), start, end);
    }
}

proof fn lemma_in_view_contains(all: Seq<Match>, start: int, end: int, x: Match)
    ensures
        in_view(all, start, end).contains(x) <==> exists|i: int|
            0 <= i < all.len() && start <= (#[trigger] all[i]).0 < end && x == counted_from(
                all[i],
                start,
            ),
    decreases all.len(),
{
    if all.len() > 0 {
        let rest = all.drop_last();
        lemma_in_view_contains(rest, start, end, x);
        lemma_push_contains(in_view(rest, start, end), counted_from(all.last(), start));
        if in_view(rest, start, end).contains(x) {
            let i = choose|i: int|
                0 <= i < rest.len() && start <= (#[trigger] rest[i]).0 < end && x == counted_from(
                    rest[i],
                    start,
                );
            assert(all[i] == rest[i]);
        }
        if exists|i: int|
            0 <= i < all.len() && start <= (#[trigger] all[i]).0 < end && x == counted_from(
                all[i],
                start,
            ) {
            let i = choose|i: int|
                0 <= i < all.len() && start <= (#[trigger] all[i]).0 < end && x == counted_from(
                    all[i],
                    start,
                );
            if i < rest.len() {
                assert(rest[i] == all[i]);
            }
        }
        if start <= all.last().0 < end && x == counted_from(all.last(), start) {
            assert(all[all.len() - 1] == all.last());
        }
    }
}

/// The search after its query was looked for in all pages. No pages mean that
/// there is nothing to search.
pub open spec fn searched(
    m: SearchModel,
    pages: Seq<(int, ScreenModel)>,
    rows: nat,
    cols: nat,
    start: int,
    end: int,
) -> SearchModel {
    let cleared = SearchModel { all_matches: Seq::empty(), matches: Seq::empty(), ..m };
    if m.query.len() == 0 {
        SearchModel { current_index: 0, ..cleared }
    } else if pages.len() == 0 {
        cleared
    } else {
        let all = without_repeats(in_order(pages_matches(pages, m.query, rows, cols)));
        viewed(
            SearchModel {
                all_matches: all,
                current_index: if m.current_index >= all.len() {
                    0
                } else {
                    m.current_index
                },
                ..cleared
            },
            start,
            end,
        )
    }
}

/// The search with another match in focus, one further on; the first follows
/// the last.
pub open spec fn moved_forward(m: SearchModel) -> SearchModel {
    if m.query.len() == 0 || m.all_matches.len() == 0 {
        m
    } else if m.current_index + 1 < m.all_matches.len() {
        SearchModel { current_index: m.current_index + 1, ..m }
    } else {
        SearchModel { current_index: 0, ..m }
    }
}

/// The search with another match in focus, one further back; the last precedes
/// the first.
pub open spec fn moved_backward(m: SearchModel) -> SearchModel {
    if m.query.len() == 0 || m.all_matches.len() == 0 {
        m
    } else if m.current_index > 0 {
        SearchModel { current_index: m.current_index - 1, ..m }
    } else {
        SearchModel { current_index: m.all_matches.len() - 1, ..m }
    }
}

/// Where there are matches, one is in focus.
pub open spec fn focus_ok(m: SearchModel) -> bool {
    m.current_index >= 0 && (m.all_matches.len() > 0 ==> m.current_index < m.all_matches.len())
}

/// A step forward and a step back undo each other.
pub proof fn law_steps_undo_each_other(m: SearchModel)
    requires
        focus_ok(m),
    ensures
        moved_backward(moved_forward(m)) == m,
        moved_forward(moved_backward(m)) == m,
        focus_ok(moved_forward(m)),
        focus_ok(moved_backward(m)),
{
}

/// A step forward puts the next match into focus and a step back the one before,
/// round and round; nothing else changes. Without matches there is no step.
pub proof fn law_steps_go_round(m: SearchModel)
    requires
        focus_ok(m),
    ensures
        m.query.len() > 0 && m.all_matches.len() > 0 ==> moved_forward(m).current_index == (
        m.current_index + 1) % (m.all_matches.len() as int),
        m.query.len() > 0 && m.all_matches.len() > 0 ==> (moved_backward(m).current_index + 1) % (
        m.all_matches.len() as int) == m.current_index,
        moved_forward(m) == (SearchModel { current_index: moved_forward(m).current_index, ..m }),
        moved_backward(m) == (SearchModel { current_index: moved_backward(m).current_index, ..m }),
        m.query.len() == 0 || m.all_matches.len() == 0 ==> moved_forward(m) == m && moved_backward(
            m,
        ) == m,
{
    let n = m.all_matches.len() as int;
    if m.query.len() > 0 && n > 0 {
        let i = m.current_index;
        if i + 1 < n {
            vstd::arithmetic::div_mod::lemma_small_mod((i + 1) as nat, n as nat);
        } else {
            assert(n % n == 0) by {
                vstd::arithmetic::div_mod::lemma_mod_self_0(n);
            }
        }
        if i > 0 {
            vstd::arithmetic::div_mod::lemma_small_mod(i as nat, n as nat);
        } else {
            vstd::arithmetic::div_mod::lemma_mod_self_0(n);
        }
    }
}

/// Whether the query stands at a position of a row of a page, and a match tells
/// that place: the row of the scrollback, the column of its first character, and
/// how many columns it reaches to that of its last.
pub open spec fn tells_place(
    x: Match,
    page: (int, ScreenModel),
    query: Seq<char>,
    cols: nat,
    row: int,
    p: int,
) -> bool {
    let n = cells_searched(page.1, cols, row);
    let line = lowered_line(page.1.lines[row], n);
    let columns = lowered_columns(page.1.lines[row], n);
    &&& 0 <= p < line.len()
    &&& stands_at(line, p, query)
    &&& x.0 == (page.0 + row) as usize
    &&& x.1 == columns[p]
    &&& x.2 == (columns[p + query.len() - 1] - columns[p] + 1) as usize
}

/// A search finds every place of the pages at which the query stands, and no
/// other; the matches are in order, and one of them is in focus where there are
/// any: the one that was, as far as there are so many, else the first.
pub proof fn law_search_finds_every_place(
    m: SearchModel,
    pages: Seq<(int, ScreenModel)>,
    rows: nat,
    cols: nat,
    start: int,
    end: int,
    x: Match,
)
    requires
        m.query.len() > 0,
        pages.len() > 0,
        0 <= m.current_index,
    ensures
        searched(m, pages, rows, cols, start, end).all_matches.contains(x) <==> exists|
            i: int,
            row: int,
            p: int,
        |
            0 <= i < pages.len() && 0 <= row < rows && row < pages[i].1.lines.len()
                && #[trigger] tells_place(x, pages[i], m.query, cols, row, p),
        is_in_order(searched(m, pages, rows, cols, start, end).all_matches),
        focus_ok(searched(m, pages, rows, cols, start, end)),
        ({
            let after = searched(m, pages, rows, cols, start, end);
            after.current_index == if m.current_index < after.all_matches.len() {
                m.current_index
            } else {
                0
            }
        }),
{
    let found = pages_matches(pages, m.query, rows, cols);
    law_settled_matches(found);
    assert(searched(m, pages, rows, cols, start, end).all_matches == without_repeats(
        in_order(found),
    ));
    lemma_pages_matches(pages, m.query, rows, cols, x);
}

proof fn lemma_concat_contains(a: Seq<Match>, b: Seq<Match>, x: Match)
    ensures
        (a + b).contains(x) <==> a.contains(x) || b.contains(x),
{
    let c = a + b;
    if a.contains(x) {
        let i = choose|i: int| 0 <= i < a.len() && a[i] == x;
        assert(c[i] == x);
    }
    if b.contains(x) {
        let i = choose|i: int| 0 <= i < b.len() && b[i] == x;
        assert(c[a.len() + i] == x);
    }
    if c.contains(x) {
        let i = choose|i: int| 0 <= i < c.len() && c[i] == x;
        if i < a.len() {
            assert(a[i] == x);
        } else {
            assert(b[i - a.len()] == x);
        }
    }
}

proof fn lemma_screen_matches(
    page: (int, ScreenModel),
    query: Seq<char>,
    cols: nat,
    rows: int,
    x: Match,
)
    requires
        0 <= rows,
    ensures
        screen_matches(page.1, query, page.0, cols, rows).contains(x) <==> exists|
            row: int,
            p: int,
        |
            0 <= row < rows && #[trigger] tells_place(x, page, query, cols, row, p),
    decreases rows,
{
    if rows > 0 {
        lemma_screen_matches(page, query, cols, rows - 1, x);
        let row = rows - 1;
        let a = screen_matches(page.1, query, page.0, cols, row);
        let b = row_matches(page.1, query, page.0, cols, row);
        lemma_concat_contains(a, b, x);
        let n = cells_searched(page.1, cols, row);
        let line = lowered_line(page.1.lines[row], n);
        let columns = lowered_columns(page.1.lines[row], n);
        law_matches_are_the_occurrences(line, columns, query, page.0 + row, x);
        if b.contains(x) {
            let p = choose|p: int|
                0 <= p < line.len() && #[trigger] stands_at(line, p, query) && x == match_at(
                    columns,
                    query.len(),
                    page.0 + row,
                    p,
                );
            assert(tells_place(x, page, query, cols, row, p));
        }
        if exists|r: int, p: int|
            0 <= r < rows && #[trigger] tells_place(x, page, query, cols, r, p) {
            let (r, p) = choose|r: int, p: int|
                0 <= r < rows && #[trigger] tells_place(x, page, query, cols, r, p);
            if r == row {
                assert(stands_at(line, p, query));
            }
        }
    }
}

proof fn lemma_pages_matches(
    pages: Seq<(int, ScreenModel)>,
    query: Seq<char>,
    rows: nat,
    cols: nat,
    x: Match,
)
    ensures
        pages_matches(pages, query, rows, cols).contains(x) <==> exists|
            i: int,
            row: int,
            p: int,
        |
            0 <= i < pages.len() && 0 <= row < rows && row < pages[i].1.lines.len()
                && #[trigger] tells_place(x, pages[i], query, cols, row, p),
    decreases pages.len(),
{
    if pages.len() > 0 {
        let rest = pages.drop_last();
        let page = pages.last();
        lemma_pages_matches(rest, query, rows, cols, x);
        let a = pages_matches(rest, query, rows, cols);
        let k = rows_searched(page.1, rows) as int;
        let b = screen_matches(page.1, query, page.0, cols, k);
        lemma_concat_contains(a, b, x);
        lemma_screen_matches(page, query, cols, k, x);
        if a.contains(x) {
            let (i, row, p) = choose|i: int, row: int, p: int|
                0 <= i < rest.len() && 0 <= row < rows && row < rest[i].1.lines.len()
                    && #[trigger] tells_place(x, rest[i], query, cols, row, p);
            assert(pages[i] == rest[i]);
            assert(tells_place(x, pages[i], query, cols, row, p));
        }
        if b.contains(x) {
            let (row, p) = choose|row: int, p: int|
                0 <= row < k && #[trigger] tells_place(x, page, query, cols, row, p);
            assert(tells_place(x, pages[pages.len() - 1], query, cols, row, p));
        }
        if exists|i: int, row: int, p: int|
            0 <= i < pages.len() && 0 <= row < rows && row < pages[i].1.lines.len()
                && #[trigger] tells_place(x, pages[i], query, cols, row, p) {
            let (i, row, p) = choose|i: int, row: int, p: int|
                0 <= i < pages.len() && 0 <= row < rows && row < pages[i].1.lines.len()
                    && #[trigger] tells_place(x, pages[i], query, cols, row, p);
            if i < rest.len() {
                assert(tells_place(x, rest[i], query, cols, row, p));
            } else {
                assert(tells_place(x, page, query, cols, row, p));
            }
        }
    }
}

/// The line that is searched is made of the texts of the cells in lower case,
/// one behind the other, a space for an empty cell, and each of its characters
/// tells the column of its cell.
pub proof fn law_cells_in_the_searched_line(cells: Seq<CellModel>, n: int, k: int)
    requires
        0 <= k < n <= usize::MAX,
    ensures
        lowered_line(cells, 0).len() == 0,
        lowered_line(cells, k + 1).len() == lowered_line(cells, k).len() + lowered_cell(
            cells[k].grapheme,
        ).len(),
        stands_at(
            lowered_line(cells, n),
            lowered_line(cells, k).len() as int,
            lowered_cell(cells[k].grapheme),
        ),
        lowered_columns(cells, n).len() == lowered_line(cells, n).len(),
        forall|i: int|
            lowered_line(cells, k).len() <= i < lowered_line(cells, k + 1).len()
                ==> #[trigger] lowered_columns(cells, n)[i] == k,
        cells[k].grapheme.len() == 0 ==> lowered_cell(cells[k].grapheme) == seq![' '],
        cells[k].grapheme.len() > 0 ==> lowered_cell(cells[k].grapheme) == lowered(
            cells[k].grapheme,
        ),
    decreases n - k,
{
    let text = lowered_cell(cells[k].grapheme);
    let at = lowered_line(cells, k).len() as int;
    lemma_columns(cells, n);
    lemma_columns(cells, k);
    lemma_columns(cells, n - 1);
    if k + 1 == n {
        assert(lowered_line(cells, n).subrange(at, at + text.len()) =~= text);
    } else {
        law_cells_in_the_searched_line(cells, n - 1, k);
        let before = lowered_line(cells, n - 1);
        let all = lowered_line(cells, n);
        assert(all == before + lowered_cell(cells[n - 1].grapheme));
        assert(all.subrange(at, at + text.len()) =~= before.subrange(at, at + text.len()));
        assert forall|i: int| at <= i < lowered_line(cells, k + 1).len()
            implies #[trigger] lowered_columns(cells, n)[i] == k by {
            assert(lowered_columns(cells, n)[i] == lowered_columns(cells, n - 1)[i]);
        }
    }
}

/// Texts are put into lower case character by character, in their order.
pub proof fn law_lowered(a: Seq<char>, b: Seq<char>, c: char)
    ensures
        lowered(a + b) == lowered(a) + lowered(b),
        lowered(seq![c]) == lowercase_of(c),
    decreases b.len(),
{
    reveal_with_fuel(lowered, 2);
    assert(seq![c].drop_last() =~= Seq::empty());
    assert(lowered(seq![c]) =~= lowercase_of(c));
    if b.len() == 0 {
        assert(a + b =~= a);
        assert(lowered(a) + lowered(b) =~= lowered(a));
    } else {
        law_lowered(a, b.drop_last(), c);
        assert((a + b).drop_last() =~= a + b.drop_last());
        assert(lowered(a + b) =~= lowered(a) + lowered(b));
    }
}

/// How far the view is to be moved for the match in focus: its row is then a
/// third of the view below the top, as far as the scrollback allows.
pub open spec fn focus_delta(m: SearchModel, total: int, offset: int, len: int) -> int {
    let row = m.all_matches[m.current_index].0;
    let wanted = if row > len / 3 {
        row - len / 3
    } else {
        0
    };
    let last = last_offset(total, len);
    (if wanted <= last {
        wanted
    } else {
        last
    }) - offset
}

/// After the view was moved so, the match in focus is in view, wherever its row
/// is in the scrollback at all.
pub proof fn law_focused_match_is_in_view(m: SearchModel, total: int, offset: int, len: int)
    requires
        focus_ok(m),
        m.all_matches.len() > 0,
        0 < len,
        0 <= total,
        m.all_matches[m.current_index].0 < total,
    ensures
        ({
            let start = offset + focus_delta(m, total, offset, len);
            start <= m.all_matches[m.current_index].0 < start + len
        }),
{
}

/// After the view was moved so, it starts within the scrollback, and the match in
/// focus is a third of the view below the top, wherever the scrollback reaches
/// far enough above and below.
pub proof fn law_focused_match_is_a_third_down(m: SearchModel, total: int, offset: int, len: int)
    requires
        focus_ok(m),
        m.all_matches.len() > 0,
        0 < len,
        0 <= total,
    ensures
        ({
            let start = offset + focus_delta(m, total, offset, len);
            let row = m.all_matches[m.current_index].0;
            &&& 0 <= start
            &&& start == 0 || start + len <= total
            &&& row >= len / 3 && row - len / 3 + len <= total ==> start + len / 3 == row
            &&& row < len / 3 ==> start == 0
            &&& row - len / 3 + len > total && total > len ==> start + len == total
        }),
{
}

impl SearchState {
    /// No search.
    pub fn new() -> (s: SearchState)
        ensures
            s@ == (SearchModel {
                active: false,
                query: Seq::empty(),
                all_matches: Seq::empty(),
                matches: Seq::empty(),
                current_index: 0,
                current_viewport_index: None,
            }),
            focus_ok(s@),
    {
        SearchState {
            active: false,
            query: String::new(),
            all_matches: Vec::new(),
            matches: Vec::new(),
            current_index: 0,
            current_viewport_index: None,
        }
    }

    /// Opens the search bar.
    pub fn open(&mut self)
        ensures
            final(self)@ == (SearchModel { active: true, ..old(self)@ }),
    {
        self.active = true;
    }

    /// Closes the search bar and forgets the query and the matches.
    pub fn close(&mut self)
        ensures
            final(self)@ == (SearchModel {
                active: false,
                query: Seq::empty(),
                all_matches: Seq::empty(),
                matches: Seq::empty(),
                current_index: 0,
                ..old(self)@
            }),
            focus_ok(final(self)@),
    {
        self.active = false;
        self.query = String::new();
        self.all_matches = Vec::new();
        self.matches = Vec::new();
        self.current_index = 0;
    }

    /// Opens the search bar, or closes it where it was open. Returns whether it
    /// is open now.
    pub fn toggle_search(&mut self, is_open: bool) -> (open: bool)
        ensures
            open == !is_open,
            final(self)@ == if is_open {
                (SearchModel {
                    active: false,
                    query: Seq::empty(),
                    all_matches: Seq::empty(),
                    matches: Seq::empty(),
                    current_index: 0,
                    ..old(self)@
                })
            } else {
                (SearchModel { active: true, ..old(self)@ })
            },
    {
        if is_open {
            self.close();
        } else {
            self.open();
        }
        !is_open
    }

    /// Takes another query. Its matches are still to be found.
    pub fn set_query(&mut self, query: &str)
        ensures
            final(self)@ == (SearchModel { query: lowercase_text_of(query@), ..old(self)@ }),
    {
        self.query = lower_text(query);
    }

    /// Forgets the matches because the pane put something out while the search
    /// bar was open.
    pub fn output_came(&mut self)
        ensures
            final(self)@ == if old(self)@.active && old(self)@.all_matches.len() > 0 {
                (SearchModel {
                    all_matches: Seq::empty(),
                    matches: Seq::empty(),
                    current_index: 0,
                    current_viewport_index: None,
                    ..old(self)@
                })
            } else {
                old(self)@
            },
            focus_ok(old(self)@) ==> focus_ok(final(self)@),
    {
        if self.active && self.all_matches.len() > 0 {
            self.all_matches = Vec::new();
            self.matches = Vec::new();
            self.current_index = 0;
            self.current_viewport_index = None;
        }
    }

    /// Finds the matches in view anew, where the view starts at row `offset` of
    /// the scrollback and is `len` rows high.
    pub fn filter_viewport_matches(&mut self, offset: usize, len: usize)
        requires
            offset + len <= usize::MAX,
        ensures
            final(self)@ == viewed(old(self)@, offset as int, offset + len),
    {
        let start: usize = offset;
        let end: usize = offset + len;
        let ghost all = self.all_matches@;
        let mut matches: Vec<Match> = Vec::new();
        let mut focus: Option<usize> = None;
        let mut i: usize = 0;
        while i < self.all_matches.len()
            invariant
                i <= all.len(),
                all == self.all_matches@,
                self@ == old(self)@,
                start == offset,
                end == offset + len,
                matches@ == in_view(all.take(i as int), start as int, end as int),
                matches@.len() <= i,
                focus == if self.current_index < i && start <= all[self.current_index as int].0
                    < end {
                    Some(
                        in_view(
                            all.take(self.current_index as int),
                            start as int,
                            end as int,
                        ).len() as usize,
                    )
                } else {
                    None::<usize>
                },
            decreases all.len() - i,
        {
            let (row, col, n) = self.all_matches[i];
            proof {
                lemma_take_one_more(all, i as int);
                assert(all.take(i + 1).drop_last() =~= all.take(i as int));
            }
            if row >= start && row < end {
                if i == self.current_index {
                    focus = Some(matches.len());
                }
                matches.push((row - start, col, n));
            }
            i = i + 1;
            assert(matches@ =~= in_view(all.take(i as int), start as int, end as int));
        }
        assert(all.take(i as int) =~= all);
        self.matches = matches;
        self.current_viewport_index = focus;
    }

    /// Looks for the query in the whole scrollback, of which `pages` were read
    /// one after the other, and in view from row `offset` on. No pages mean
    /// that there is nothing to search.
    pub fn recompute_all_search_matches(
        &mut self,
        pages: &Vec<Page>,
        rows: usize,
        cols: usize,
        offset: usize,
        len: usize,
    )
        requires
            offset + len <= usize::MAX,
            forall|i: int|
                0 <= i < pages@.len() ==> (#[trigger] pages@[i]).offset
                    + pages@[i].screen@.lines.len() <= usize::MAX,
        ensures
            final(self)@ == searched(
                old(self)@,
                pages_model(pages@),
                rows as nat,
                cols as nat,
                offset as int,
                offset + len,
            ),
            focus_ok(final(self)@),
    {
        self.all_matches = Vec::new();
        self.matches = Vec::new();
        if self.query.as_str().is_empty() {
            self.current_index = 0;
            return;
        }
        if pages.len() == 0 {
            return;
        }
        let ghost model = pages_model(pages@);
        let mut all: Vec<Match> = Vec::new();
        let mut i: usize = 0;
        while i < pages.len()
            invariant
                i <= pages@.len(),
                model == pages_model(pages@),
                self.query@.len() > 0,
                self@ == (SearchModel {
                    all_matches: Seq::empty(),
                    matches: Seq::empty(),
                    ..old(self)@
                }),
                forall|k: int|
                    0 <= k < pages@.len() ==> (#[trigger] pages@[k]).offset
                        + pages@[k].screen@.lines.len() <= usize::MAX,
                all@ == pages_matches(
                    model.take(i as int),
                    self.query@,
                    rows as nat,
                    cols as nat,
                ),
            decreases pages@.len() - i,
        {
            let page = &pages[i];
            collect_matches_from_viewport(
                &page.screen,
                self.query.as_str(),
                page.offset,
                rows,
                cols,
                &mut all,
            );
            proof {
                lemma_take_one_more(model, i as int);
                assert(model.take(i + 1).drop_last() =~= model.take(i as int));
                assert(model[i as int] == (pages@[i as int].offset as int, pages@[i as int].screen@));
            }
            i = i + 1;
        }
        assert(model.take(i as int) =~= model);
        let settled = drop_repeats(&sort_matches(&all));
        if self.current_index >= settled.len() {
            self.current_index = 0;
        }
        self.all_matches = settled;
        self.filter_viewport_matches(offset, len);
    }

    /// The text beside the search bar.
    pub fn match_label(&self) -> (text: String)
        requires
            focus_ok(self@),
        ensures
            text@ == if self@.query.len() == 0 || self@.all_matches.len() == 0 {
                "0 of 0"@
            } else {
                decimal((self@.current_index + 1) as nat) + " of "@ + decimal(
                    self@.all_matches.len(),
                )
            },
    {
        if self.query.as_str().is_empty() || self.all_matches.len() == 0 {
            return "0 of 0".to_owned();
        }
        let mut text = decimal_text(self.current_index as u64 + 1);
        text.append(" of ");
        text.append(decimal_text(self.all_matches.len() as u64).as_str());
        text
    }

    /// How far the view is to be moved for the match in focus; none where there
    /// are no matches.
    pub fn focus_scroll(&self, total: usize, offset: usize, len: usize) -> (delta: Option<isize>)
        requires
            focus_ok(self@),
            total <= isize::MAX,
            offset <= isize::MAX,
        ensures
            if self@.all_matches.len() == 0 {
                delta is None
            } else {
                delta matches Some(d) && d == focus_delta(
                    self@,
                    total as int,
                    offset as int,
                    len as int,
                )
            },
    {
        if self.all_matches.len() == 0 {
            return None;
        }
        let row: usize = self.all_matches[self.current_index].0;
        let third: usize = len / 3;
        let wanted: usize = if row > third {
            row - third
        } else {
            0
        };
        let last: usize = if total > len {
            total - len
        } else {
            0
        };
        let target: usize = if wanted <= last {
            wanted
        } else {
            last
        };
        Some(target as isize - offset as isize)
    }

    /// Puts the next match in focus. The view is still to be moved.
    pub fn navigate_search_forward(&mut self)
        requires
            focus_ok(old(self)@),
        ensures
            final(self)@ == moved_forward(old(self)@),
            focus_ok(final(self)@),
    {
        if self.query.as_str().is_empty() || self.all_matches.len() == 0 {
            return;
        }
        if self.current_index + 1 < self.all_matches.len() {
            self.current_index = self.current_index + 1;
        } else {
            self.current_index = 0;
        }
    }

    /// Puts the match before in focus. The view is still to be moved.
    pub fn navigate_search_backward(&mut self)
        requires
            focus_ok(old(self)@),
        ensures
            final(self)@ == moved_backward(old(self)@),
            focus_ok(final(self)@),
    {
        if self.query.as_str().is_empty() || self.all_matches.len() == 0 {
            return;
        }
        if self.current_index > 0 {
            self.current_index = self.current_index - 1;
        } else {
            self.current_index = self.all_matches.len() - 1;
        }
    }
}

} // verus!

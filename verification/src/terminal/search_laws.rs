//! What a search tells, by rows and columns.

use vstd::prelude::*;

use crate::terminal::draw::{
    cells_drawn, cols_drawn, covers, larger, rows_drawn, selection_spans_of, smaller,
};
use crate::terminal::keys::{common_menu, url_entry, MenuModel};
use crate::terminal::lookup::stands_at;
use crate::terminal::search::{
    cells_searched, focus_ok, in_order, law_settled_matches, rows_searched, searched, viewed,
    without_repeats, Match, SearchModel, SearchState,
};
use crate::terminal::view::before;
use crate::text::decimal;
use crate::text_laws::{law_decimal_stands_for_the_number, number_of};
use crate::vt::{ScreenModel, Selection, SelectionMode};

verus! {

/// A text stands at a position of a line where each of its characters stands in its
/// place from there on.
pub proof fn law_text_stands_at(line: Seq<char>, p: int, text: Seq<char>)
    ensures
        stands_at(line, p, text) <==> 0 <= p && p + text.len() <= line.len() && forall|i: int|
            0 <= i < text.len() ==> line[p + i] == #[trigger] text[i],
{
    if 0 <= p && p + text.len() <= line.len() {
        let part = line.subrange(p, p + text.len());
        if part == text {
            assert forall|i: int| 0 <= i < text.len() implies line[p + i] == #[trigger] text[i] by {
                assert(part[i] == line[p + i]);
            }
        }
        if forall|i: int| 0 <= i < text.len() ==> line[p + i] == #[trigger] text[i] {
            assert(part =~= text);
        }
    }
}

/// A search looks at as many cells of a row as the row has, the screen is wide and are
/// asked for, whichever is least, and likewise at the rows.
pub proof fn law_what_is_searched(screen: ScreenModel, rows: nat, cols: nat, row: int)
    requires
        0 <= row < screen.lines.len(),
    ensures
        ({
            let n = cells_searched(screen, cols, row);
            &&& 0 <= n <= cols && n <= screen.cols && n <= screen.lines[row].len()
            &&& n == cols || n == screen.cols || n == screen.lines[row].len()
        }),
        rows_searched(screen, rows) <= rows,
        rows_searched(screen, rows) <= screen.lines.len(),
        rows_searched(screen, rows) == rows || rows_searched(screen, rows) == screen.lines.len(),
{
}

/// Matches are settled by row, and within a row by column; no match comes twice in
/// succession.
pub proof fn law_matches_in_reading_order(s: Seq<Match>)
    ensures
        ({
            let out = without_repeats(in_order(s));
            &&& forall|i: int, j: int|
                0 <= i < j < out.len() ==> (#[trigger] out[i]).0 <= (#[trigger] out[j]).0
            &&& forall|i: int, j: int|
                0 <= i < j < out.len() && (#[trigger] out[i]).0 == (#[trigger] out[j]).0
                    ==> out[i].1 <= out[j].1
            &&& forall|i: int| 0 < i < out.len() ==> out[i - 1] != #[trigger] out[i]
        }),
{
    law_settled_matches(s);
    lemma_no_repeats(in_order(s));
}

proof fn lemma_no_repeats(s: Seq<Match>)
    ensures
        s.len() > 0 ==> without_repeats(s).len() > 0 && without_repeats(s).last() == s.last(),
        forall|i: int|
            0 < i < without_repeats(s).len() ==> without_repeats(s)[i - 1]
                != #[trigger] without_repeats(s)[i],
    decreases s.len(),
{
    if s.len() > 1 {
        lemma_no_repeats(s.drop_last());
        assert(s.drop_last().last() == s[s.len() - 2]);
    }
}

/// What a search finds in view is what filtering all that it found gives; a search for
/// nothing finds nothing and puts nothing in focus, and the query stays.
pub proof fn law_search_shows_what_is_in_view(
    m: SearchModel,
    pages: Seq<(int, ScreenModel)>,
    rows: nat,
    cols: nat,
    start: int,
    end: int,
)
    ensures
        ({
            let n = searched(m, pages, rows, cols, start, end);
            &&& n.query == m.query
            &&& n.active == m.active
            &&& m.query.len() > 0 && pages.len() > 0 ==> n == viewed(n, start, end)
            &&& m.query.len() == 0 ==> n.all_matches.len() == 0 && n.matches.len() == 0
                && n.current_index == 0
            &&& pages.len() == 0 ==> n.all_matches.len() == 0 && n.matches.len() == 0
        }),
{
}

// ---------------------------------------------------------------------------
// The view
// ---------------------------------------------------------------------------
/// Of two numbers the smaller and the larger.
pub proof fn law_smaller_and_larger(a: int, b: int)
    ensures
        smaller(a, b) <= a && smaller(a, b) <= b && (smaller(a, b) == a || smaller(a, b) == b),
        larger(a, b) >= a && larger(a, b) >= b && (larger(a, b) == a || larger(a, b) == b),
{
}

/// A frame draws as many rows and cells as the screen has and the view holds, whichever is
/// less.
pub proof fn law_what_is_drawn_of_a_screen(screen: ScreenModel, rows: nat, cols: nat, row: int)
    requires
        0 <= row < screen.lines.len(),
    ensures
        rows_drawn(screen, rows) <= rows && rows_drawn(screen, rows) <= screen.lines.len(),
        rows_drawn(screen, rows) == rows || rows_drawn(screen, rows) == screen.lines.len(),
        cols_drawn(screen, cols) <= cols && cols_drawn(screen, cols) <= screen.cols,
        cols_drawn(screen, cols) == cols || cols_drawn(screen, cols) == screen.cols,
        cells_drawn(screen, cols, row) <= cols_drawn(screen, cols) && cells_drawn(screen, cols, row)
            <= screen.lines[row].len(),
        cells_drawn(screen, cols, row) == cols_drawn(screen, cols) || cells_drawn(screen, cols, row)
            == screen.lines[row].len(),
{
}

/// A selection marks the cells of a rectangle, of whole rows, or all from its one end to
/// the other in reading order.
pub proof fn law_selection_marks_its_cells(
    sel: Selection,
    offset: int,
    num_rows: int,
    num_cols: int,
    row: int,
    col: int,
)
    requires
        sel.start.1 < usize::MAX && sel.end.1 < usize::MAX,
        0 <= offset,
        offset + num_rows < usize::MAX,
        0 <= num_cols <= usize::MAX,
        0 <= row < num_rows,
        0 <= col < num_cols,
    ensures
        ({
            let at = offset + row;
            let marked = covers(selection_spans_of(sel, offset, num_rows, num_cols), row, col);
            let in_rows = (sel.start.0 <= at <= sel.end.0) || (sel.end.0 <= at <= sel.start.0);
            let in_cols = (sel.start.1 <= col <= sel.end.1) || (sel.end.1 <= col <= sel.start.1);
            let behind_start = at > sel.start.0 || (at == sel.start.0 && col >= sel.start.1);
            let before_end = at < sel.end.0 || (at == sel.end.0 && col <= sel.end.1);
            let behind_end = at > sel.end.0 || (at == sel.end.0 && col >= sel.end.1);
            let before_start = at < sel.start.0 || (at == sel.start.0 && col <= sel.start.1);
            &&& sel.mode == SelectionMode::Line ==> (marked <==> in_rows)
            &&& sel.mode == SelectionMode::Block ==> (marked <==> in_rows && in_cols)
            &&& sel.mode == SelectionMode::Normal || sel.mode == SelectionMode::Word ==> (marked
                <==> (behind_start && before_end) || (behind_end && before_start))
        }),
{
    crate::terminal::draw::law_selection_is_drawn(sel, offset, num_rows, num_cols, row, col);
}

/// Something that lasts until a moment is over from that moment on.
pub proof fn law_until_a_moment(now: u64, later: u64, until: Option<u64>)
    requires
        now <= later,
    ensures
        before(later, until) ==> before(now, until),
        until is None ==> !before(now, until),
        until is Some ==> (before(now, until) <==> now < until->0),
{
}

/// The menu of a pane offers to copy where something is selected, and all else always;
/// one over an address offers to open it, behind a line.
pub proof fn law_menu_of_a_pane(has_selection: bool, url: Seq<char>, i: int)
    requires
        0 <= i < common_menu(has_selection).len(),
    ensures
        common_menu(has_selection).len() == common_menu(!has_selection).len(),
        common_menu(has_selection)[i] matches MenuModel::Entry { action, enabled, .. } ==> (enabled
            <==> action != "win.copy"@ || has_selection),
        url_entry(url) matches MenuModel::Entry { label, action, enabled, .. } && enabled && action
            == "win.open-url"@ && label.skip(5) == url && label.take(5) == "Open "@,
{
    reveal_strlit("win.copy");
    reveal_strlit("win.paste");
    reveal_strlit("win.select-all");
    reveal_strlit("win.search");
    reveal_strlit("Open ");
    assert("win.copy"@.len() == 8 && "win.paste"@.len() == 9 && "win.select-all"@.len() == 14
        && "win.search"@.len() == 10);
    let label = "Open "@ + url;
    assert(label.skip(5) =~= url);
    assert(label.take(5) =~= "Open "@);
}

/// The label tells which match is in focus, counted from one, and of how many; where
/// nothing is found both are zero.
pub proof fn law_label_counts_the_matches(s: SearchState, text: String)
    requires
        focus_ok(s@),
        call_ensures(SearchState::match_label, (&s,), text),
    ensures
        exists|k: int, n: int| #[trigger]
            is_label(text@, k, n) && n == (if s@.query.len() == 0 {
                0
            } else {
                s@.all_matches.len() as int
            }) && k == (if n == 0 {
                0
            } else {
                s@.current_index + 1
            }),
{
    reveal_strlit("0 of 0");
    reveal_strlit(" of ");
    if s@.query.len() == 0 || s@.all_matches.len() == 0 {
        reveal_with_fuel(number_of, 2);
        assert(text@.take(1) =~= seq!['0']);
        assert(text@.skip(5) =~= seq!['0']);
        assert(seq!['0'].drop_last() =~= Seq::empty());
        assert(text@.subrange(1, 5) =~= " of "@);
        assert(parts_of_label(text@, 1, 0, 0));
        assert(is_label(text@, 0, 0));
    } else {
        let a = decimal((s@.current_index + 1) as nat);
        let b = decimal(s@.all_matches.len());
        law_decimal_stands_for_the_number((s@.current_index + 1) as nat);
        law_decimal_stands_for_the_number(s@.all_matches.len());
        let i = a.len() as int;
        assert(text@.take(i) =~= a);
        assert(text@.subrange(i, i + 4) =~= " of "@);
        assert(text@.skip(i + 4) =~= b);
        assert(parts_of_label(text@, i, s@.current_index + 1, s@.all_matches.len() as int));
        assert(is_label(text@, s@.current_index + 1, s@.all_matches.len() as int));
    }
}

/// Whether a text tells two numbers, the first up to a position and the second behind it.
pub open spec fn parts_of_label(text: Seq<char>, i: int, k: int, n: int) -> bool {
    &&& 0 < i && i + 4 < text.len()
    &&& number_of(text.take(i)) == k
    &&& text.subrange(i, i + 4) == " of "@
    &&& number_of(text.skip(i + 4)) == n
}

/// Whether a text tells two numbers.
pub open spec fn is_label(text: Seq<char>, k: int, n: int) -> bool {
    exists|i: int| #[trigger] parts_of_label(text, i, k, n)
}

} // verus!

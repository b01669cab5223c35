//! What a frame shows of each cell, row and tab.

use vstd::prelude::*;

use crate::renderer::color::{rgba_parts, ColorScheme, Rgba};
use crate::renderer::damage::{any_damage, clean_for, dirty_from, is_dirty, resized, DamageModel};
use crate::renderer::frame::at_least_one;
use crate::renderer::grid::{
    backgrounds, behind, row_backgrounds, rows_in_view, shown_cells, BackgroundModel,
};
use crate::renderer::statusbar::{first_marked, TabBarState};
use crate::renderer::text_plan::{
    in_front, title_color, title_shown, titles_ok, view_texts, TabTitle,
};
use crate::text_laws::{law_decimal_stands_for_the_number, number_of};
use crate::vt::{CellModel, Color, ScreenModel};

verus! {

// ---------------------------------------------------------------------------
// Changed rows
// ---------------------------------------------------------------------------
/// The rows to draw again are those that changed since they were drawn, and those that
/// never were; each comes once, from top to bottom.
pub proof fn law_changed_rows_are_drawn(d: DamageModel, screen: ScreenModel, row: int)
    requires
        screen.lines.len() <= usize::MAX,
        0 <= row < screen.lines.len(),
    ensures
        (exists|i: int|
            0 <= i < dirty_from(d, screen, 0).len() && (#[trigger] dirty_from(d, screen, 0)[i])
                == row) <==> row >= d.row_generations.len() || row >= screen.row_generations.len()
            || screen.row_generations[row] > d.row_generations[row],
        forall|i: int, j: int|
            0 <= i < j < dirty_from(d, screen, 0).len() ==> (#[trigger] dirty_from(d, screen, 0)[i])
                < (#[trigger] dirty_from(d, screen, 0)[j]),
        forall|i: int|
            0 <= i < dirty_from(d, screen, 0).len() ==> (#[trigger] dirty_from(d, screen, 0)[i])
                < screen.lines.len(),
{
    lemma_dirty(d, screen, 0, row);
}

proof fn lemma_dirty(d: DamageModel, screen: ScreenModel, from: int, row: int)
    requires
        screen.lines.len() <= usize::MAX,
        0 <= from <= screen.lines.len(),
    ensures
        ({
            let rows = dirty_from(d, screen, from);
            &&& (exists|i: int| 0 <= i < rows.len() && (#[trigger] rows[i]) == row) <==> from <= row
                < screen.lines.len() && is_dirty(d, screen, row)
            &&& forall|i: int, j: int|
                0 <= i < j < rows.len() ==> (#[trigger] rows[i]) < (#[trigger] rows[j])
            &&& forall|i: int|
                0 <= i < rows.len() ==> from <= (#[trigger] rows[i]) < screen.lines.len()
        }),
    decreases screen.lines.len() - from,
{
    if from < screen.lines.len() {
        lemma_dirty(d, screen, from + 1, row);
        let rest = dirty_from(d, screen, from + 1);
        let all = dirty_from(d, screen, from);
        if is_dirty(d, screen, from) {
            assert(all.len() == rest.len() + 1 && all[0] == from);
            assert forall|i: int| 0 < i < all.len() implies #[trigger] all[i] == rest[i - 1] by {}
            if exists|i: int| 0 <= i < rest.len() && (#[trigger] rest[i]) == row {
                let i = choose|i: int| 0 <= i < rest.len() && (#[trigger] rest[i]) == row;
                assert(all[i + 1] == row);
            }
            if exists|i: int| 0 <= i < all.len() && (#[trigger] all[i]) == row {
                let i = choose|i: int| 0 <= i < all.len() && (#[trigger] all[i]) == row;
                if i > 0 {
                    assert(rest[i - 1] == row);
                }
            }
        }
    }
}

/// A screen is drawn anew where it changed or has another height; once it was drawn it is
/// not, until it changes. Rows that a tracker keeps on resizing keep what is known of
/// them, and those that come are to be drawn.
pub proof fn law_when_all_is_drawn(d: DamageModel, screen: ScreenModel, later: ScreenModel, n: nat)
    ensures
        !any_damage(clean_for(screen), screen),
        later.generation != screen.generation ==> any_damage(clean_for(screen), later),
        later.lines.len() != screen.lines.len() ==> any_damage(clean_for(screen), later),
        resized(d.row_generations, n).len() == n,
        forall|i: int|
            0 <= i < n && i < d.row_generations.len() ==> #[trigger] resized(
                d.row_generations,
                n,
            )[i] == d.row_generations[i],
        forall|i: int|
            d.row_generations.len() <= i < n ==> #[trigger] resized(d.row_generations, n)[i] == 0,
{
}

// ---------------------------------------------------------------------------
// Colours and cells
// ---------------------------------------------------------------------------
/// A cell in inverse shows its two colours the other way round; a colour of its own is
/// shown as it is and without transparency, and one of the theme as the theme has it.
pub proof fn law_colours_of_a_cell(cell: CellModel, other: CellModel, scheme: ColorScheme)
    requires
        other.attrs.fg == cell.attrs.fg,
        other.attrs.bg == cell.attrs.bg,
        other.attrs.inverse == !cell.attrs.inverse,
    ensures
        behind(cell, scheme) == in_front(other, scheme),
        in_front(cell, scheme) == behind(other, scheme),
        !cell.attrs.inverse && cell.attrs.fg is Default ==> in_front(cell, scheme)
            == scheme.foreground@,
        !cell.attrs.inverse && cell.attrs.bg is Default ==> behind(cell, scheme)
            == scheme.background@,
        !cell.attrs.inverse ==> (cell.attrs.fg matches Color::Rgb(r, g, b) ==> in_front(
            cell,
            scheme,
        ) == seq![r, g, b, 255]),
        !cell.attrs.inverse ==> (cell.attrs.bg matches Color::Rgb(r, g, b) ==> behind(cell, scheme)
            == seq![r, g, b, 255]),
{
}

/// The rows in view are as many as are asked for, or as there are from where the view
/// begins.
pub proof fn law_rows_in_view(screen: ScreenModel, scroll: int, visible: int)
    requires
        0 <= scroll,
        0 <= visible,
    ensures
        0 <= rows_in_view(screen, scroll, visible) <= visible,
        scroll <= screen.lines.len() ==> scroll + rows_in_view(screen, scroll, visible)
            <= screen.lines.len(),
        rows_in_view(screen, scroll, visible) < visible && scroll <= screen.lines.len() ==> scroll
            + rows_in_view(screen, scroll, visible) == screen.lines.len(),
        scroll >= screen.lines.len() ==> rows_in_view(screen, scroll, visible) == 0,
{
}

/// Whether a background is drawn at a cell of the view, in a colour.
pub open spec fn paints(cells: Seq<BackgroundModel>, row: int, col: int, color: Seq<u8>) -> bool {
    exists|i: int|
        0 <= i < cells.len() && (#[trigger] cells[i]) == (BackgroundModel { row, col, color })
}

/// A background is drawn at a cell exactly where the cell is in view and has another one
/// than the whole, and in the colour that the cell has.
pub proof fn law_backgrounds_of_cells(
    screen: ScreenModel,
    scheme: ColorScheme,
    scroll: int,
    n: int,
    row: int,
    col: int,
    color: Seq<u8>,
)
    requires
        0 <= scroll,
        0 <= n,
        scroll + n <= screen.lines.len(),
    ensures
        paints(backgrounds(screen, scheme, scroll, n), row, col, color) <==> 0 <= row < n && 0
            <= col < screen.lines[scroll + row].len() && col < screen.cols && color == behind(
            screen.lines[scroll + row][col],
            scheme,
        ) && color != scheme.background@,
    decreases n,
{
    if n > 0 {
        law_backgrounds_of_cells(screen, scheme, scroll, n - 1, row, col, color);
        let before = backgrounds(screen, scheme, scroll, n - 1);
        let more = row_backgrounds(
            screen.lines[scroll + n - 1],
            scheme,
            n - 1,
            shown_cells(screen, scroll + n - 1),
        );
        lemma_row_backgrounds(
            screen.lines[scroll + n - 1],
            scheme,
            n - 1,
            shown_cells(screen, scroll + n - 1),
            row,
            col,
            color,
        );
        lemma_paints_together(before, more, row, col, color);
    }
}

proof fn lemma_paints_together(
    a: Seq<BackgroundModel>,
    b: Seq<BackgroundModel>,
    row: int,
    col: int,
    color: Seq<u8>,
)
    ensures
        paints(a + b, row, col, color) <==> paints(a, row, col, color) || paints(
            b,
            row,
            col,
            color,
        ),
{
    let s = a + b;
    let it = BackgroundModel { row, col, color };
    if paints(s, row, col, color) {
        let i = choose|i: int| 0 <= i < s.len() && (#[trigger] s[i]) == it;
        if i < a.len() {
            assert(a[i] == it);
        } else {
            assert(b[i - a.len()] == it);
        }
    }
    if paints(a, row, col, color) {
        let i = choose|i: int| 0 <= i < a.len() && (#[trigger] a[i]) == it;
        assert(s[i] == it);
    }
    if paints(b, row, col, color) {
        let i = choose|i: int| 0 <= i < b.len() && (#[trigger] b[i]) == it;
        assert(s[a.len() + i] == it);
    }
}

proof fn lemma_row_backgrounds(
    cells: Seq<CellModel>,
    scheme: ColorScheme,
    at: int,
    n: int,
    row: int,
    col: int,
    color: Seq<u8>,
)
    ensures
        paints(row_backgrounds(cells, scheme, at, n), row, col, color) <==> row == at && 0 <= col
            < n && color == behind(cells[col], scheme) && color != scheme.background@,
    decreases n,
{
    if n > 0 {
        lemma_row_backgrounds(cells, scheme, at, n - 1, row, col, color);
        let before = row_backgrounds(cells, scheme, at, n - 1);
        if behind(cells[n - 1], scheme) != scheme.background@ {
            let last = BackgroundModel { row: at, col: n - 1, color: behind(cells[n - 1], scheme) };
            let one = seq![last];
            assert(before.push(last) =~= before + one);
            lemma_paints_together(before, one, row, col, color);
            assert(one[0] == last);
            if row == at && col == n - 1 && color == behind(cells[n - 1], scheme) {
                assert(paints(one, row, col, color));
            }
        }
    }
}

/// The text of a view is that of its rows from where it begins, cell by cell, each with
/// its own character, colour and weight.
pub proof fn law_texts_of_cells(
    screen: ScreenModel,
    scheme: ColorScheme,
    scroll: int,
    visible: int,
    row: int,
    col: int,
)
    requires
        0 <= scroll,
        0 <= visible,
        0 <= row < view_texts(screen, scheme, scroll, visible).len(),
        0 <= col < screen.lines[scroll + row].len(),
    ensures
        scroll + row < screen.lines.len(),
        row < visible,
        view_texts(screen, scheme, scroll, visible)[row].len() == screen.lines[scroll + row].len(),
        ({
            let span = view_texts(screen, scheme, scroll, visible)[row][col];
            let cell = screen.lines[scroll + row][col];
            &&& span.text == seq![cell.character]
            &&& span.color == in_front(cell, scheme)
            &&& span.bold == cell.attrs.bold
            &&& span.italic == cell.attrs.italic
        }),
{
}

// ---------------------------------------------------------------------------
// Tabs
// ---------------------------------------------------------------------------
/// The active tab is the first that is marked, and the first of all where none is.
pub proof fn law_first_marked_tab_is_active(tabs: Seq<(String, bool)>, from: int)
    requires
        0 <= from <= tabs.len(),
    ensures
        (forall|i: int| from <= i < tabs.len() ==> !(#[trigger] tabs[i]).1) ==> first_marked(
            tabs,
            from,
        ) == 0,
        forall|i: int|
            from <= i < tabs.len() && (#[trigger] tabs[i]).1 && (forall|j: int|
                from <= j < i ==> !(#[trigger] tabs[j]).1) ==> first_marked(tabs, from) == i,
    decreases tabs.len() - from,
{
    if from < tabs.len() && !tabs[from].1 {
        law_first_marked_tab_is_active(tabs, from + 1);
    }
}

/// A tab shows its title, or its number where it has none, counted from one; the active
/// one stands out.
pub proof fn law_title_of_a_tab(title: Seq<char>, i: nat)
    ensures
        title.len() > 0 ==> title_shown(title, i) == title,
        title.len() == 0 ==> title_shown(title, i).take(4) == "Tab "@ && number_of(
            title_shown(title, i).skip(4),
        ) == i + 1,
        title_color(true) != title_color(false),
        forall|k: int| 0 <= k < 3 ==> #[trigger] title_color(true)[k] > title_color(false)[k],
{
    law_decimal_stands_for_the_number(i + 1);
    reveal_strlit("Tab ");
    if title.len() == 0 {
        assert(title_shown(title, i).skip(4) =~= crate::text::decimal(i + 1));
        assert(title_shown(title, i).take(4) =~= "Tab "@);
    }
    assert(title_color(true)[0] != title_color(false)[0]);
}

/// The bar shows every tab in its place with its title, and exactly the active one stands
/// out.
pub proof fn law_bar_shows_every_tab(titles: Seq<TabTitle>, state: TabBarState, i: int)
    requires
        titles_ok(titles, state),
        0 <= i < state.tabs@.len(),
    ensures
        titles.len() == state.tabs@.len(),
        state.tabs@[i].title@.len() > 0 ==> titles[i].text@ == state.tabs@[i].title@,
        titles[i].color@ == title_color(true) <==> i == state.active_index,
{
    assert(title_color(true)[0] != title_color(false)[0]);
}

/// A colour of a theme keeps its parts, in the order red, green, blue and opacity; a
/// surface is never without extent.
pub proof fn law_parts_of_a_colour(c: Rgba, n: u32)
    ensures
        rgba_parts(c).len() == 4,
        rgba_parts(c)[0] == c.r && rgba_parts(c)[1] == c.g && rgba_parts(c)[2] == c.b
            && rgba_parts(c)[3] == c.a,
        at_least_one(n) >= 1,
        n > 0 ==> at_least_one(n) == n,
        n == 0 ==> at_least_one(n) == 1,
{
}

} // verus!

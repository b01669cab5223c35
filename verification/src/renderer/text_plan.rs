//! The texts that are drawn: those of cells and the titles of tabs.

use vstd::prelude::*;

use crate::renderer::color::{resolved, ColorScheme};
use crate::renderer::grid::{rows_in_view, view_rows};
use crate::renderer::statusbar::TabBarState;
use crate::text::{decimal, decimal_text, join2, text_of};
use crate::vt::{cells_model, Cell, CellModel, Screen, ScreenModel};

verus! {

/// The text of one cell, with its colour and its cut.
#[derive(Debug, PartialEq, Eq)]
pub struct TextSpan {
    pub text: String,
    pub color: [u8; 4],
    pub bold: bool,
    pub italic: bool,
}

/// The same as a mathematical value.
pub ghost struct TextSpanModel {
    pub text: Seq<char>,
    pub color: Seq<u8>,
    pub bold: bool,
    pub italic: bool,
}

impl View for TextSpan {
    type V = TextSpanModel;

    open spec fn view(&self) -> TextSpanModel {
        TextSpanModel {
            text: self.text@,
            color: self.color@,
            bold: self.bold,
            italic: self.italic,
        }
    }
}

/// Texts as mathematical values.
pub open spec fn spans_model(spans: Seq<TextSpan>) -> Seq<TextSpanModel> {
    Seq::new(spans.len(), |i: int| spans[i]@)
}

/// The colour of a cell's text; that behind it where they are swapped.
pub open spec fn in_front(cell: CellModel, scheme: ColorScheme) -> Seq<u8> {
    if cell.attrs.inverse {
        resolved(cell.attrs.bg, scheme.background@)
    } else {
        resolved(cell.attrs.fg, scheme.foreground@)
    }
}

/// The texts of a row, cell by cell: the character of each.
pub open spec fn row_spans_of(cells: Seq<CellModel>, scheme: ColorScheme) -> Seq<TextSpanModel> {
    Seq::new(
        cells.len(),
        |i: int|
            TextSpanModel {
                text: seq![cells[i].character],
                color: in_front(cells[i], scheme),
                bold: cells[i].attrs.bold,
                italic: cells[i].attrs.italic,
            },
    )
}

/// The texts of a row, cell by cell.
pub fn row_spans(cells: &Vec<Cell>, scheme: &ColorScheme) -> (spans: Vec<TextSpan>)
    ensures
        spans_model(spans@) == row_spans_of(cells_model(cells@), *scheme),
{
    let ghost model = cells_model(cells@);
    let mut spans: Vec<TextSpan> = Vec::new();
    let mut i: usize = 0;
    while i < cells.len()
        invariant
            i <= cells@.len(),
            spans@.len() == i,
            model == cells_model(cells@),
            forall|j: int|
                0 <= j < i ==> (#[trigger] spans@[j])@ == row_spans_of(model, *scheme)[j],
        decreases cells@.len() - i,
    {
        let cell = &cells[i];
        assert(model[i as int] == cell@);
        let color = if cell.attrs.inverse {
            scheme.resolve_bg(cell.attrs.bg)
        } else {
            scheme.resolve_fg(cell.attrs.fg)
        };
        let text = text_of(&[cell.character]);
        assert(text@ =~= seq![cell@.character]);
        spans.push(
            TextSpan {
                text,
                color,
                bold: cell.attrs.bold,
                italic: cell.attrs.italic,
            },
        );
        i = i + 1;
    }
    assert(spans_model(spans@) =~= row_spans_of(model, *scheme));
    spans
}

/// The texts of several rows as mathematical values.
pub open spec fn rows_model(rows: Seq<Vec<TextSpan>>) -> Seq<Seq<TextSpanModel>> {
    Seq::new(rows.len(), |i: int| spans_model(rows[i]@))
}

/// The texts of the rows of a view of `visible` rows that begins `scroll` rows
/// down the screen, as far as they lie on the screen.
pub open spec fn view_texts(screen: ScreenModel, scheme: ColorScheme, scroll: int, visible: int) -> Seq<
    Seq<TextSpanModel>,
> {
    Seq::new(
        rows_in_view(screen, scroll, visible) as nat,
        |i: int| row_spans_of(screen.lines[scroll + i], scheme),
    )
}

/// The texts of the rows of a view.
pub fn prepare(screen: &Screen, scheme: &ColorScheme, scroll: usize, visible: usize) -> (rows: Vec<
    Vec<TextSpan>,
>)
    ensures
        rows_model(rows@) == view_texts(screen@, *scheme, scroll as int, visible as int),
{
    let n: usize = view_rows(screen, scroll, visible);
    let total: usize = screen.rows();
    let mut rows: Vec<Vec<TextSpan>> = Vec::new();
    let ghost all = view_texts(screen@, *scheme, scroll as int, visible as int);
    while rows.len() < n
        invariant
            n == rows_in_view(screen@, scroll as int, visible as int),
            all == view_texts(screen@, *scheme, scroll as int, visible as int),
            total == screen@.lines.len(),
            n > 0 ==> scroll + n <= total,
            rows@.len() <= n,
            forall|i: int| 0 <= i < rows@.len() ==> spans_model((#[trigger] rows@[i])@) == all[i],
        decreases n - rows@.len(),
    {
        let spans = row_spans(screen.row(scroll + rows.len()), scheme);
        rows.push(spans);
    }
    assert(rows_model(rows@) =~= all);
    rows
}

/// The title of a tab and its colour.
#[derive(Debug, PartialEq, Eq)]
pub struct TabTitle {
    pub text: String,
    pub color: [u8; 4],
}

/// The title of the tab at an index: its number where it has none.
pub open spec fn title_shown(title: Seq<char>, i: nat) -> Seq<char> {
    if title.len() == 0 {
        "Tab "@ + decimal(i + 1)
    } else {
        title
    }
}

/// The colour of a tab's title: brighter for the one that is shown.
pub open spec fn title_color(active: bool) -> Seq<u8> {
    if active {
        seq![220u8, 220, 240, 255]
    } else {
        seq![140u8, 140, 160, 255]
    }
}

/// Whether titles are those of the tabs.
pub open spec fn titles_ok(titles: Seq<TabTitle>, state: TabBarState) -> bool {
    titles.len() == state.tabs@.len() && forall|i: int|
        0 <= i < titles.len() ==> (#[trigger] titles[i]).text@ == title_shown(
            state.tabs@[i].title@,
            i as nat,
        ) && titles[i].color@ == title_color(i == state.active_index)
}

/// The titles of the tabs.
pub fn tab_titles(state: &TabBarState) -> (titles: Vec<TabTitle>)
    ensures
        titles_ok(titles@, *state),
{
    let mut titles: Vec<TabTitle> = Vec::new();
    let mut i: usize = 0;
    while i < state.tabs.len()
        invariant
            i <= state.tabs@.len(),
            titles@.len() == i,
            forall|j: int|
                0 <= j < i ==> (#[trigger] titles@[j]).text@ == title_shown(
                    state.tabs@[j].title@,
                    j as nat,
                ) && titles@[j].color@ == title_color(j == state.active_index),
        decreases state.tabs@.len() - i,
    {
        let title = &state.tabs[i].title;
        let text = if title.as_str().is_empty() {
            join2("Tab ", decimal_text(i as u64 + 1).as_str())
        } else {
            title.clone()
        };
        let color: [u8; 4] = if i == state.active_index {
            [220, 220, 240, 255]
        } else {
            [140, 140, 160, 255]
        };
        assert(color@ =~= title_color(i == state.active_index));
        titles.push(TabTitle { text, color });
        i = i + 1;
    }
    titles
}

/// All texts of a window: those of the view, and the titles above it.
#[derive(Debug, PartialEq, Eq)]
pub struct TextPlan {
    pub rows: Vec<Vec<TextSpan>>,
    pub titles: Vec<TabTitle>,
}

/// The texts of the rows of a view and the titles of the tabs.
pub fn prepare_with_offset(
    screen: &Screen,
    scheme: &ColorScheme,
    scroll: usize,
    visible: usize,
    tab_state: &TabBarState,
) -> (plan: TextPlan)
    ensures
        rows_model(plan.rows@) == view_texts(screen@, *scheme, scroll as int, visible as int),
        titles_ok(plan.titles@, *tab_state),
{
    TextPlan { rows: prepare(screen, scheme, scroll, visible), titles: tab_titles(tab_state) }
}

} // verus!

//! The pointer on a pane: clicks, drags and the selections they make.

use vstd::prelude::*;

use crate::terminal::lookup::{
    cells_shown, detect_url_at, ends_word, find_word_boundaries, last_col_selected,
    last_non_whitespace_col, last_shown, law_one_word_at_a_cell, law_word_bounds,
    law_word_of_each_of_its_cells, row_reaches, select_all_visible, stands_alone, url_at,
    word_bounds,
};
use crate::vt::{not_after, ordered_ends, Screen, ScreenModel, Selection, SelectionMode};

verus! {

/// The selection and how it is being made.
#[derive(Clone, Copy, Debug, PartialEq, Eq)]
pub struct PointerState {
    pub selection: Option<Selection>,
    /// Whether a selection is being dragged.
    pub selecting: bool,
    /// First and last column of the word from which one is dragged by words.
    pub word_anchor: Option<(usize, usize)>,
    /// Row and column at which the button went down. The selection begins only
    /// once the pointer moves.
    pub drag_origin: Option<(usize, usize)>,
}

/// A press of a button of the mouse.
#[derive(Clone, Copy, Debug, PartialEq, Eq)]
pub struct Press {
    pub button: u32,
    /// Which press it is of a series of clicks.
    pub n_press: i32,
    pub ctrl: bool,
    pub shift: bool,
    /// Whether the program in the pane wants the events of the mouse.
    pub mouse_tracking: bool,
    /// The cell under the pointer.
    pub row: usize,
    pub col: usize,
    /// The row of the scrollback at which the view starts.
    pub offset: usize,
    /// Where the pointer is over the copy button of a block of code: whether
    /// there is anything to copy.
    pub copy_button: Option<bool>,
}

/// What a press leads to.
#[derive(Debug, PartialEq, Eq)]
pub enum PressStep {
    /// Show the context menu.
    ContextMenu { url: Option<String>, has_selection: bool },
    /// Open an address.
    OpenUrl(String),
    /// Copy the block of code, and confirm it.
    CopyBlock,
    /// Nothing.
    Nothing,
    /// The selection changed, or may have.
    Redraw,
    /// Give the event to the program in the pane.
    Encode,
}

/// The same as a mathematical value.
pub ghost enum PressStepModel {
    ContextMenu { url: Option<Seq<char>>, has_selection: bool },
    OpenUrl(Seq<char>),
    CopyBlock,
    Nothing,
    Redraw,
    Encode,
}

impl View for PressStep {
    type V = PressStepModel;

    open spec fn view(&self) -> PressStepModel {
        match *self {
            PressStep::ContextMenu { url, has_selection } => PressStepModel::ContextMenu {
                url: match url {
                    Some(u) => Some(u@),
                    None => None,
                },
                has_selection,
            },
            PressStep::OpenUrl(url) => PressStepModel::OpenUrl(url@),
            PressStep::CopyBlock => PressStepModel::CopyBlock,
            PressStep::Nothing => PressStepModel::Nothing,
            PressStep::Redraw => PressStepModel::Redraw,
            PressStep::Encode => PressStepModel::Encode,
        }
    }
}

/// Whether a press with control held is over an address.
pub open spec fn opens_url(p: Press, screen: ScreenModel) -> bool {
    p.button == 1 && p.ctrl && !p.shift && !p.mouse_tracking && url_at(
        screen,
        p.row as int,
        p.col as int,
    ) is Some
}

/// Whether a press selects: the program does not want it, or shift is held.
pub open spec fn selects(p: Press) -> bool {
    !p.mouse_tracking || p.shift
}

/// What a press leads to.
pub open spec fn press_step(s: PointerState, p: Press, screen: ScreenModel) -> PressStepModel {
    if p.button == 3 {
        PressStepModel::ContextMenu {
            url: match url_at(screen, p.row as int, p.col as int) {
                Some(h) => Some(h.url),
                None => None,
            },
            has_selection: s.selection is Some,
        }
    } else if opens_url(p, screen) {
        PressStepModel::OpenUrl(url_at(screen, p.row as int, p.col as int)->0.url)
    } else if p.button == 1 && p.n_press == 1 && p.copy_button is Some {
        if p.copy_button->0 {
            PressStepModel::CopyBlock
        } else {
            PressStepModel::Nothing
        }
    } else if p.button != 1 {
        PressStepModel::Nothing
    } else if selects(p) {
        PressStepModel::Redraw
    } else {
        PressStepModel::Encode
    }
}

/// The selection after a press that selects: one click begins one, or extends
/// the one there is where shift is held; two take a word, three a line.
pub open spec fn pressed(s: PointerState, p: Press, screen: ScreenModel) -> PointerState {
    let row = (p.row + p.offset) as usize;
    if p.n_press == 1 {
        match s.selection {
            Some(sel) if p.shift => PointerState {
                selection: Some(Selection { end: (row, p.col), ..sel }),
                selecting: false,
                ..s
            },
            _ => PointerState {
                selection: None,
                selecting: true,
                word_anchor: None,
                drag_origin: Some((row, p.col)),
            },
        }
    } else if p.n_press == 2 {
        let word = word_bounds(screen, p.row as int, p.col as int);
        PointerState {
            selection: Some(
                Selection {
                    start: (row, word.0 as usize),
                    end: (row, word.1 as usize),
                    mode: SelectionMode::Word,
                },
            ),
            selecting: true,
            word_anchor: Some((word.0 as usize, word.1 as usize)),
            ..s
        }
    } else if p.n_press == 3 {
        PointerState {
            selection: Some(
                Selection {
                    start: (row, 0),
                    end: (row, last_col_of(screen, p.row as int)),
                    mode: SelectionMode::Line,
                },
            ),
            selecting: false,
            word_anchor: None,
            ..s
        }
    } else {
        s
    }
}

/// The last column of a row that shows something.
pub open spec fn last_col_of(screen: ScreenModel, row: int) -> usize {
    if row < screen.lines.len() {
        last_shown(screen.lines[row]) as usize
    } else {
        0
    }
}

/// The state in which a drag goes on: a drag that has just begun selects from
/// where the button went down.
pub open spec fn drag_begun(s: PointerState) -> PointerState {
    match (s.selection, s.drag_origin) {
        (None, Some(origin)) => PointerState {
            selection: Some(
                Selection { start: origin, end: origin, mode: SelectionMode::Normal },
            ),
            drag_origin: None,
            ..s
        },
        _ => s,
    }
}

/// A selection by words after a drag to a word: the word from which it is
/// dragged stays in it, on whichever side the pointer is.
pub open spec fn dragged_words(
    sel: Selection,
    anchor: Option<(usize, usize)>,
    row: usize,
    word: (usize, usize),
) -> Selection {
    match anchor {
        Some(a) => if row < sel.start.0 || (row == sel.start.0 && word.0 < a.0) {
            Selection { start: (sel.start.0, a.1), end: (row, word.0), ..sel }
        } else {
            Selection { start: (sel.start.0, a.0), end: (row, word.1), ..sel }
        },
        None => Selection { end: (row, word.1), ..sel },
    }
}

/// The state after a drag to a cell.
pub open spec fn dragged(s: PointerState, row: usize, col: usize, offset: usize, screen: ScreenModel) -> PointerState {
    let begun = drag_begun(s);
    let abs_row = (row + offset) as usize;
    match begun.selection {
        None => begun,
        Some(sel) => if sel.mode == SelectionMode::Word {
            let word = word_bounds(screen, row as int, col as int);
            PointerState {
                selection: Some(
                    dragged_words(
                        sel,
                        s.word_anchor,
                        abs_row,
                        (word.0 as usize, word.1 as usize),
                    ),
                ),
                ..begun
            }
        } else {
            PointerState { selection: Some(Selection { end: (abs_row, col), ..sel }), ..begun }
        },
    }
}

/// The state after the button went up: a selection of nothing is none.
pub open spec fn released(s: PointerState) -> PointerState {
    PointerState {
        selection: match s.selection {
            Some(sel) if sel.start == sel.end && sel.mode == SelectionMode::Normal => None,
            other => other,
        },
        selecting: false,
        word_anchor: None,
        drag_origin: None,
    }
}

/// A click that is not followed by a drag leaves no selection.
pub proof fn law_click_selects_nothing(s: PointerState, p: Press, screen: ScreenModel)
    requires
        p.n_press == 1,
        !p.shift,
    ensures
        released(pressed(s, p, screen)).selection is None,
{
}

/// A click and a drag select from the one cell to the other.
pub proof fn law_drag_selects_from_where_it_began(
    s: PointerState,
    p: Press,
    row: usize,
    col: usize,
    screen: ScreenModel,
)
    requires
        p.n_press == 1,
        !p.shift,
        p.row + p.offset <= usize::MAX,
        row + p.offset <= usize::MAX,
    ensures
        dragged(pressed(s, p, screen), row, col, p.offset, screen).selection == Some(
            Selection {
                start: ((p.row + p.offset) as usize, p.col),
                end: ((row + p.offset) as usize, col),
                mode: SelectionMode::Normal,
            },
        ),
{
}

/// A double click on a word and a drag, to either side, keep the whole of that
/// word in the selection.
pub proof fn law_dragging_words_keeps_the_first(
    s: PointerState,
    p: Press,
    row: usize,
    col: usize,
    screen: ScreenModel,
)
    requires
        p.n_press == 2,
        p.row + p.offset <= usize::MAX,
        row + p.offset <= usize::MAX,
        !stands_alone(screen, p.row as int, p.col as int),
        p.col < screen.lines[p.row as int].len(),
        screen.lines[p.row as int][p.col as int].grapheme.len() > 0,
        row_reaches(screen, row as int, col as int),
        screen.cols <= usize::MAX,
    ensures
        ({
            let first = word_bounds(screen, p.row as int, p.col as int);
            let abs_row = (p.row + p.offset) as usize;
            let sel = dragged(pressed(s, p, screen), row, col, p.offset, screen).selection;
            sel matches Some(x) && not_after(ordered_ends(x).0, (abs_row, first.0 as usize))
                && not_after((abs_row, first.1 as usize), ordered_ends(x).1)
        }),
{
    let cells = screen.lines[p.row as int];
    let shown = cells_shown(screen, p.row as int);
    let first = word_bounds(screen, p.row as int, p.col as int);
    law_word_bounds(screen, p.row as int, p.col as int);
    if row == p.row && !stands_alone(screen, row as int, col as int) {
        let other = word_bounds(screen, row as int, col as int);
        law_word_bounds(screen, row as int, col as int);
        if other.0 >= first.0 && other.1 < first.1 {
            law_word_of_each_of_its_cells(cells, shown, p.col as int, first, col as int);
            law_one_word_at_a_cell(cells, shown, col as int, first, other);
        }
    } else if !stands_alone(screen, row as int, col as int) {
        law_word_bounds(screen, row as int, col as int);
    } else if row == p.row && col < screen.cols {
        if first.0 <= col < first.1 {
            assert(ends_word(cells[col as int].grapheme));
            assert(col != p.col);
        }
    }
}

impl PointerState {
    /// No selection.
    pub fn new() -> (s: PointerState)
        ensures
            s == (PointerState {
                selection: None,
                selecting: false,
                word_anchor: None,
                drag_origin: None,
            }),
    {
        PointerState { selection: None, selecting: false, word_anchor: None, drag_origin: None }
    }

    fn select(&mut self, p: &Press, screen: &Screen)
        requires
            p.row + p.offset <= usize::MAX,
            row_reaches(screen@, p.row as int, p.col as int),
        ensures
            *final(self) == pressed(*old(self), *p, screen@),
    {
        let row: usize = p.row + p.offset;
        if p.n_press == 1 {
            if p.shift {
                if let Some(mut sel) = self.selection {
                    sel.update(row, p.col);
                    self.selection = Some(sel);
                    self.selecting = false;
                    return;
                }
            }
            self.selection = None;
            self.selecting = true;
            self.word_anchor = None;
            self.drag_origin = Some((row, p.col));
        } else if p.n_press == 2 {
            let (word_start, word_end) = find_word_boundaries(screen, p.row, p.col);
            let mut sel = Selection::new(row, word_start, SelectionMode::Word);
            sel.update(row, word_end);
            self.selection = Some(sel);
            self.selecting = true;
            self.word_anchor = Some((word_start, word_end));
        } else if p.n_press == 3 {
            let last_col: usize = last_non_whitespace_col(screen, p.row);
            let mut sel = Selection::new(row, 0, SelectionMode::Line);
            sel.update(row, last_col);
            self.selection = Some(sel);
            self.selecting = false;
            self.word_anchor = None;
        }
    }

    /// Takes a press of a button.
    pub fn press(&mut self, p: &Press, screen: &Screen) -> (step: PressStep)
        requires
            p.row + p.offset <= usize::MAX,
            row_reaches(screen@, p.row as int, p.col as int),
        ensures
            step@ == press_step(*old(self), *p, screen@),
            *final(self) == if step@ is Redraw {
                pressed(*old(self), *p, screen@)
            } else {
                *old(self)
            },
    {
        if p.button == 3 {
            let url = match detect_url_at(screen, p.row, p.col) {
                Some(h) => Some(h.url),
                None => None,
            };
            return PressStep::ContextMenu { url, has_selection: self.selection.is_some() };
        }
        if p.button == 1 && p.ctrl && !p.shift && !p.mouse_tracking {
            if let Some(h) = detect_url_at(screen, p.row, p.col) {
                return PressStep::OpenUrl(h.url);
            }
        }
        if p.button == 1 && p.n_press == 1 {
            if let Some(any) = p.copy_button {
                return if any {
                    PressStep::CopyBlock
                } else {
                    PressStep::Nothing
                };
            }
        }
        if p.button != 1 {
            return PressStep::Nothing;
        }
        if !p.mouse_tracking || p.shift {
            self.select(p, screen);
            PressStep::Redraw
        } else {
            PressStep::Encode
        }
    }

    /// Takes that a button went up. Returns whether that ended a drag; if not,
    /// the event is for the program in the pane.
    pub fn release(&mut self, button: u32) -> (ended: bool)
        ensures
            ended == (button == 1 && old(self).selecting),
            *final(self) == if ended {
                released(*old(self))
            } else {
                *old(self)
            },
    {
        if button == 1 && self.selecting {
            self.selecting = false;
            self.word_anchor = None;
            self.drag_origin = None;
            if let Some(sel) = self.selection {
                if sel.is_empty() && sel.mode == SelectionMode::Normal {
                    self.selection = None;
                }
            }
            true
        } else {
            false
        }
    }

    /// Takes that the pointer was dragged to a cell.
    pub fn drag(&mut self, row: usize, col: usize, offset: usize, screen: &Screen)
        requires
            row + offset <= usize::MAX,
            row_reaches(screen@, row as int, col as int),
        ensures
            *final(self) == dragged(*old(self), row, col, offset, screen@),
    {
        let abs_row: usize = row + offset;
        if self.selection.is_none() {
            if let Some((r, c)) = self.drag_origin {
                self.selection = Some(Selection::new(r, c, SelectionMode::Normal));
                self.drag_origin = None;
            }
        }
        if let Some(mut sel) = self.selection {
            if sel.mode == SelectionMode::Word {
                let (word_start, word_end) = find_word_boundaries(screen, row, col);
                let anchor_row: usize = sel.start.0;
                if let Some((anchor_start, anchor_end)) = self.word_anchor {
                    if abs_row < anchor_row || (abs_row == anchor_row && word_start
                        < anchor_start) {
                        sel.start = (anchor_row, anchor_end);
                        sel.end = (abs_row, word_start);
                    } else {
                        sel.start = (anchor_row, anchor_start);
                        sel.end = (abs_row, word_end);
                    }
                } else {
                    sel.update(abs_row, word_end);
                }
            } else {
                sel.update(abs_row, col);
            }
            self.selection = Some(sel);
        }
    }

    /// Selects everything in view.
    pub fn select_all(&mut self, rows: usize, cols: usize, offset: usize, screen: &Screen)
        requires
            offset + rows <= usize::MAX,
        ensures
            if rows == 0 || cols == 0 {
                *final(self) == *old(self)
            } else {
                final(self).selection matches Some(sel) && sel.start == (offset, 0usize)
                    && sel.end.0 == offset + rows - 1 && sel.end.1
                    == last_col_selected(screen@, rows - 1, cols as int)
                    && sel.mode == SelectionMode::Normal && !final(self).selecting
                    && final(self).word_anchor is None && final(self).drag_origin
                    == old(self).drag_origin
            },
    {
        if let Some(sel) = select_all_visible(rows, cols, offset, screen) {
            self.selection = Some(sel);
            self.selecting = false;
            self.word_anchor = None;
        }
    }

    /// Forgets the selection but not where a button went down.
    pub fn clear(&mut self)
        ensures
            *final(self) == (PointerState {
                selection: None,
                selecting: false,
                word_anchor: None,
                ..*old(self)
            }),
    {
        self.selection = None;
        self.selecting = false;
        self.word_anchor = None;
    }
}

/// By how many rows the view moves when a drag leaves it.
pub fn drag_scroll(above: bool, below: bool) -> (delta: isize)
    ensures
        delta == if above {
            -3int
        } else if below {
            3int
        } else {
            0int
        },
{
    if above {
        -3
    } else if below {
        3
    } else {
        0
    }
}

} // verus!

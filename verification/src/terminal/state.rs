//! A pane on the screen as a whole: what comes from its program, from the
//! keyboard and from the pointer.

use vstd::prelude::*;

use crate::renderer::color::Theme;
use crate::terminal::hover::{
    motion_step_of, moved_to, CodeBlock, HoverState, HoverStateModel, Motion, MotionStep, NO_CELL,
};
use crate::terminal::keys::{key_step, key_step_for, Held, KeyStep, KeySym};
use crate::terminal::lookup::row_reaches;
use crate::terminal::pointer::{dragged, PointerState};
use crate::terminal::search::{pages_model, searched, Page, SearchModel, SearchState};
use crate::terminal::view::{
    after_output, fresh_view, output_step_of, BellMode, Output, OutputStep, ViewState, BELL_FLASH,
};
use crate::text::same_text;
use crate::ui::ghostty_input::ScrollAction;
use crate::vt::Screen;

verus! {

/// A pane on the screen.
#[derive(Debug, PartialEq, Eq)]
pub struct TerminalState {
    pub view: ViewState,
    pub hover: HoverState,
    pub search: SearchState,
}

/// What is configured for panes. The size of the font is held as the bits of an
/// IEEE single-precision number.
#[derive(Debug, PartialEq, Eq)]
pub struct PaneConfig {
    pub theme: Theme,
    pub font_family: String,
    pub font_size: u32,
    pub bell_mode: BellMode,
    pub notifications: bool,
}

/// How a pane looks: its colours, its font, the configured size of the font, the
/// size that it is zoomed to, and the size that the zoom goes back to.
#[derive(Debug, PartialEq, Eq)]
pub struct Appearance {
    pub theme: Theme,
    pub font_family: String,
    pub configured_size: u32,
    pub font_size: u32,
    pub default_font_size: u32,
}

/// A pane that has just been made, at a moment of at least ten seconds.
pub fn create_terminal(now: u64, bell_mode: BellMode, notifications: bool) -> (s: TerminalState)
    requires
        now >= 10000,
    ensures
        s.view == fresh_view(now, bell_mode, notifications),
        s.hover@ == (HoverStateModel {
            hover_url: None,
            last_hover_cell: (NO_CELL, NO_CELL),
            hovered_code_block: None,
            detected_code_blocks: Seq::empty(),
            code_blocks_generation: u64::MAX,
            last_hover_block_cell: (NO_CELL, NO_CELL),
        }),
        s.search@ == (SearchModel {
            active: false,
            query: Seq::empty(),
            all_matches: Seq::empty(),
            matches: Seq::empty(),
            current_index: 0,
            current_viewport_index: None,
        }),
{
    TerminalState {
        view: ViewState::new(now, bell_mode, notifications),
        hover: HoverState::new(),
        search: SearchState::new(),
    }
}

/// What a move of the pointer leads to.
#[derive(Clone, Copy, Debug, PartialEq, Eq)]
pub enum PointerMove {
    /// A selection was dragged.
    Dragged,
    /// The pointer hovers over something, perhaps something else than before.
    Hovered(MotionStep),
}

impl TerminalState {
    /// Takes output of the program. Matches that were found before it do not
    /// count any more; the selection stays.
    pub fn output(&mut self, o: &Output) -> (step: OutputStep)
        requires
            forall|i: int| 0 <= i < o.bells@.len() ==> #[trigger] o.bells@[i] + BELL_FLASH
                <= u64::MAX,
        ensures
            step == output_step_of(old(self).view, *o),
            final(self).view == after_output(old(self).view, *o),
            final(self).hover == old(self).hover,
            final(self).search@ == if old(self).search@.active
                && old(self).search@.all_matches.len() > 0 {
                (SearchModel {
                    all_matches: Seq::empty(),
                    matches: Seq::empty(),
                    current_index: 0,
                    current_viewport_index: None,
                    ..old(self).search@
                })
            } else {
                old(self).search@
            },
    {
        let step = self.view.output(o);
        self.search.output_came();
        step
    }

    /// Takes a key. Of its effects only that on the selection has happened when
    /// it returns.
    pub fn key_pressed(&mut self, key: KeySym, held: Held, mouse_tracking: bool) -> (step: KeyStep)
        ensures
            step == key_step_for(
                key,
                held,
                old(self).view.pointer.selection is Some,
                mouse_tracking,
            ),
            final(self).view == if step is ClearSelection {
                (ViewState {
                    pointer: PointerState {
                        selection: None,
                        selecting: false,
                        word_anchor: None,
                        ..old(self).view.pointer
                    },
                    ..old(self).view
                })
            } else {
                old(self).view
            },
            final(self).hover == old(self).hover,
            final(self).search == old(self).search,
    {
        let step = key_step(key, held, self.view.pointer.selection.is_some(), mouse_tracking);
        match step {
            KeyStep::ClearSelection => self.view.pointer.clear(),
            _ => {},
        }
        step
    }

    /// Takes that the pointer moved to a cell: while a selection is being
    /// dragged it follows, else the pointer hovers. `found` are the blocks of
    /// code in view.
    pub fn pointer_moved(&mut self, at: &Motion, screen: &Screen, found: &Vec<CodeBlock>) -> (r:
        PointerMove)
        requires
            row_reaches(screen@, at.row as int, at.col as int),
            at.row + old(self).view.viewport_offset <= usize::MAX,
        ensures
            final(self).search == old(self).search,
            if old(self).view.pointer.selecting {
                r is Dragged && final(self).hover == old(self).hover && final(self).view
                    == (ViewState {
                    pointer: dragged(
                        old(self).view.pointer,
                        at.row,
                        at.col,
                        old(self).view.viewport_offset as usize,
                        screen@,
                    ),
                    ..old(self).view
                })
            } else {
                r == PointerMove::Hovered(
                    motion_step_of(old(self).hover@, final(self).hover@),
                ) && final(self).view == old(self).view && final(self).hover@ == moved_to(
                    old(self).hover@,
                    *at,
                    screen@,
                    found@,
                )
            },
    {
        if self.view.pointer.selecting {
            let offset: usize = self.view.viewport_offset as usize;
            self.view.pointer.drag(at.row, at.col, offset, screen);
            PointerMove::Dragged
        } else {
            PointerMove::Hovered(self.hover.motion(at, screen, found))
        }
    }

    /// Takes that the wheel was turned. Where the view moved, it now starts at
    /// `offset` of `total` rows and is `len` rows high. Nothing is hovered over
    /// until the pointer moves again. Returns the bytes for the program.
    pub fn wheel(&mut self, action: ScrollAction, total: u64, offset: u64, len: u64) -> (bytes:
        Option<Vec<u8>>)
        requires
            offset + len <= u64::MAX,
        ensures
            match action {
                ScrollAction::WriteBytes(b) => bytes == Some(b) && final(self).view
                    == old(self).view,
                ScrollAction::ScrollViewport(_) => bytes is None && final(self).view
                    == (ViewState {
                    viewport_offset: offset,
                    scroll_lock: total > len && offset + len < total,
                    ..old(self).view
                }),
            },
            final(self).hover@ == (HoverStateModel {
                hover_url: None,
                last_hover_cell: (NO_CELL, NO_CELL),
                hovered_code_block: None,
                last_hover_block_cell: (NO_CELL, NO_CELL),
                ..old(self).hover@
            }),
            final(self).search == old(self).search,
    {
        let bytes = match action {
            ScrollAction::WriteBytes(b) => Some(b),
            ScrollAction::ScrollViewport(_) => {
                self.view.scrolled(total, offset, len);
                None
            },
        };
        self.hover.scrolled();
        bytes
    }

    /// Looks for the query again, in the pages of the scrollback as they were
    /// read one after the other; none mean that there is nothing to search. The
    /// view then starts at `offset` again and is `len` rows high.
    pub fn search_again(&mut self, pages: &Vec<Page>, offset: u64, len: usize)
        requires
            offset + len <= usize::MAX,
            forall|i: int|
                0 <= i < pages@.len() ==> (#[trigger] pages@[i]).offset
                    + pages@[i].screen@.lines.len() <= usize::MAX,
        ensures
            final(self).search@ == searched(
                old(self).search@,
                pages_model(pages@),
                old(self).view.rows as nat,
                old(self).view.cols as nat,
                offset as int,
                offset + len,
            ),
            final(self).view == if old(self).search@.query.len() > 0 && pages@.len() > 0 {
                (ViewState { viewport_offset: offset, ..old(self).view })
            } else {
                old(self).view
            },
            final(self).hover == old(self).hover,
    {
        let anything = !self.search.query.as_str().is_empty() && pages.len() > 0;
        self.search.recompute_all_search_matches(
            pages,
            self.view.rows,
            self.view.cols,
            offset as usize,
            len,
        );
        if anything {
            self.view.view_moved(offset);
        }
    }

    /// Takes another configuration. Colours, font family, bells and
    /// notifications are taken over at once. Where the font changed, the sizes
    /// are too, and with them the zoom is gone; then the grid is to be measured
    /// anew, which the result says. `size_changed` says whether the configured
    /// sizes differ by more than rounding.
    pub fn apply_config_change(
        &mut self,
        look: &mut Appearance,
        config: &PaneConfig,
        size_changed: bool,
    ) -> (measure: bool)
        ensures
            measure == (old(look).font_family@ != config.font_family@ || size_changed),
            final(self).view == (ViewState {
                bell_mode: config.bell_mode,
                notifications: config.notifications,
                ..old(self).view
            }),
            final(self).hover == old(self).hover,
            final(self).search == old(self).search,
            final(look).theme == config.theme,
            final(look).font_family@ == config.font_family@,
            if measure {
                &&& final(look).configured_size == config.font_size
                &&& final(look).font_size == config.font_size
                &&& final(look).default_font_size == config.font_size
            } else {
                &&& final(look).configured_size == old(look).configured_size
                &&& final(look).font_size == old(look).font_size
                &&& final(look).default_font_size == old(look).default_font_size
            },
    {
        let measure = font_changed(
            look.font_family.as_str(),
            config.font_family.as_str(),
            size_changed,
        );
        self.view.apply_config_change(config.bell_mode, config.notifications);
        look.theme = config.theme;
        look.font_family = config.font_family.clone();
        if measure {
            look.configured_size = config.font_size;
            look.font_size = config.font_size;
            look.default_font_size = config.font_size;
        }
        measure
    }

    /// Takes the size of the grid after the font changed, and looks for the
    /// query again where there is one.
    pub fn apply_font_zoom(
        &mut self,
        rows: usize,
        cols: usize,
        pages: &Vec<Page>,
        offset: u64,
        len: usize,
    )
        requires
            offset + len <= usize::MAX,
            forall|i: int|
                0 <= i < pages@.len() ==> (#[trigger] pages@[i]).offset
                    + pages@[i].screen@.lines.len() <= usize::MAX,
        ensures
            final(self).view == (ViewState {
                rows,
                cols,
                suppress_selection_clear_ticks: 12,
                viewport_offset: if old(self).search@.query.len() > 0 && pages@.len() > 0 {
                    offset
                } else {
                    old(self).view.viewport_offset
                },
                ..old(self).view
            }),
            final(self).search@ == if old(self).search@.query.len() > 0 {
                searched(
                    old(self).search@,
                    pages_model(pages@),
                    rows as nat,
                    cols as nat,
                    offset as int,
                    offset + len,
                )
            } else {
                old(self).search@
            },
            final(self).hover == old(self).hover,
    {
        self.view.apply_font_zoom(rows, cols);
        if !self.search.query.as_str().is_empty() {
            self.search_again(pages, offset, len);
        }
    }
}

/// Whether another configuration changes the font: its family, or its size.
pub fn font_changed(family: &str, new_family: &str, size_changed: bool) -> (b: bool)
    ensures
        b == (family@ != new_family@ || size_changed),
{
    !same_text(family, new_family) || size_changed
}

} // verus!

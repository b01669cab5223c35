//! What the renderer keeps between frames, and what a frame shows.

use vstd::prelude::*;

use crate::renderer::color::{is_default_scheme, ColorScheme};
use crate::renderer::cursor::CursorStyle;
use crate::renderer::damage::{clean_for, resized, DamageModel, DamageTracker};
use crate::renderer::grid::{
    background_cells, background_models, backgrounds, rows_in_view, BackgroundCell,
};
use crate::renderer::statusbar::{first_marked, TabBarState, TabInfo};
use crate::renderer::text_plan::{
    prepare_with_offset, rows_model, titles_ok, view_texts, TextPlan,
};
use crate::text::join2;
use crate::vt::Screen;

verus! {

/// What went wrong while drawing.
#[derive(Debug, PartialEq, Eq)]
pub enum RendererError {
    Surface(String),
    Device(String),
    Render(String),
}

impl RendererError {
    /// The error in words.
    pub fn message(&self) -> (s: String)
        ensures
            s@ == match *self {
                RendererError::Surface(e) => "surface error: "@ + e@,
                RendererError::Device(e) => "device error: "@ + e@,
                RendererError::Render(e) => "render error: "@ + e@,
            },
    {
        match self {
            RendererError::Surface(e) => join2("surface error: ", e.as_str()),
            RendererError::Device(e) => join2("device error: ", e.as_str()),
            RendererError::Render(e) => join2("render error: ", e.as_str()),
        }
    }
}

/// What the renderer keeps between frames, beside what is on the graphics card.
#[derive(Debug, PartialEq, Eq)]
pub struct TerminalRenderer {
    pub tab_state: TabBarState,
    pub color_scheme: ColorScheme,
    pub damage: DamageTracker,
    pub scroll_offset: usize,
    pub cursor_style: CursorStyle,
    /// The count of changes of the screen that was last drawn.
    pub last_screen_generation: u64,
    /// The size of the surface in pixels.
    pub width: u32,
    pub height: u32,
}

/// The cursor of a frame.
#[derive(Clone, Copy, Debug, PartialEq, Eq)]
pub struct FrameCursor {
    pub row: usize,
    pub col: usize,
    pub style: CursorStyle,
    pub color: [u8; 4],
}

/// What a frame shows, in the order in which it is drawn: a colour everywhere,
/// the bar of tabs, the backgrounds of cells, the texts, and the cursor.
#[derive(Debug, PartialEq, Eq)]
pub struct Frame {
    pub clear: [u8; 4],
    pub backgrounds: Vec<BackgroundCell>,
    pub texts: TextPlan,
    pub cursor: Option<FrameCursor>,
}

/// How drawing a frame went, step by step; what failed, in words.
#[derive(Debug, PartialEq, Eq)]
pub enum Drawing {
    /// There was no surface to draw on.
    NoSurface(String),
    /// The texts could not be prepared.
    TextNotPrepared(String),
    /// The texts were prepared and could not be drawn.
    TextNotDrawn(String),
    /// The frame is shown.
    Shown,
}

/// A surface has at least one pixel in each direction.
pub open spec fn at_least_one(n: u32) -> u32 {
    if n == 0 {
        1
    } else {
        n
    }
}

impl TerminalRenderer {
    /// One tab, a bar as cursor, the usual colours.
    pub fn new(width: u32, height: u32) -> (r: TerminalRenderer)
        ensures
            r.tab_state.tabs@.len() == 1,
            r.tab_state.tabs@[0].title@ == "shell"@,
            r.tab_state.active_index == 0,
            is_default_scheme(r.color_scheme),
            r.damage@ == (DamageModel {
                last_generation: 0,
                row_generations: Seq::new(24, |i: int| 0u64),
            }),
            r.scroll_offset == 0,
            r.cursor_style == CursorStyle::Bar,
            r.last_screen_generation == 0,
            r.width == at_least_one(width),
            r.height == at_least_one(height),
    {
        let mut tabs: Vec<TabInfo> = Vec::new();
        tabs.push(TabInfo { title: "shell".to_owned() });
        TerminalRenderer {
            tab_state: TabBarState { tabs, active_index: 0 },
            color_scheme: ColorScheme::default(),
            damage: DamageTracker::new(24),
            scroll_offset: 0,
            cursor_style: CursorStyle::Bar,
            last_screen_generation: 0,
            width: if width == 0 {
                1
            } else {
                width
            },
            height: if height == 0 {
                1
            } else {
                height
            },
        }
    }

    /// Plans a frame of a screen of which `visible` rows are seen. The cursor
    /// stands at a row and a column of the view. What becomes of the frame is
    /// for `drawn`.
    pub fn render(
        &self,
        screen: &Screen,
        cursor: (usize, usize),
        cursor_visible: bool,
        visible: usize,
    ) -> (frame: Frame)
        ensures
            frame.clear == self.color_scheme.background,
            background_models(frame.backgrounds@) == backgrounds(
                screen@,
                self.color_scheme,
                self.scroll_offset as int,
                rows_in_view(screen@, self.scroll_offset as int, visible as int),
            ),
            rows_model(frame.texts.rows@) == view_texts(
                screen@,
                self.color_scheme,
                self.scroll_offset as int,
                visible as int,
            ),
            titles_ok(frame.texts.titles@, self.tab_state),
            frame.cursor == if cursor_visible {
                Some(
                    FrameCursor {
                        row: cursor.0,
                        col: cursor.1,
                        style: self.cursor_style,
                        color: self.color_scheme.cursor,
                    },
                )
            } else {
                None
            },
    {
        let backgrounds = background_cells(
            screen,
            &self.color_scheme,
            self.scroll_offset,
            visible,
        );
        let texts = prepare_with_offset(
            screen,
            &self.color_scheme,
            self.scroll_offset,
            visible,
            &self.tab_state,
        );
        let cursor = if cursor_visible {
            Some(
                FrameCursor {
                    row: cursor.0,
                    col: cursor.1,
                    style: self.cursor_style,
                    color: self.color_scheme.cursor,
                },
            )
        } else {
            None
        };
        Frame { clear: self.color_scheme.background, backgrounds, texts, cursor }
    }

    /// Takes how drawing a frame of a screen went. Its count of changes is taken
    /// once the texts are prepared; only a frame that is shown leaves nothing to
    /// be drawn again.
    pub fn drawn(&mut self, screen: &Screen, outcome: Drawing) -> (r: Result<(), RendererError>)
        ensures
            final(self).last_screen_generation == match outcome {
                Drawing::NoSurface(_) | Drawing::TextNotPrepared(_) => old(
                    self,
                ).last_screen_generation,
                Drawing::TextNotDrawn(_) | Drawing::Shown => screen@.generation,
            },
            if outcome is Shown {
                final(self).damage@ == clean_for(screen@)
            } else {
                final(self).damage == old(self).damage
            },
            *final(self) == (TerminalRenderer {
                damage: final(self).damage,
                last_screen_generation: final(self).last_screen_generation,
                ..*old(self)
            }),
            match outcome {
                Drawing::NoSurface(e) => r matches Err(RendererError::Render(words)) && words@
                    == e@,
                Drawing::TextNotPrepared(e) => r matches Err(RendererError::Render(words))
                    && words@ == "text prepare: "@ + e@,
                Drawing::TextNotDrawn(e) => r matches Err(RendererError::Render(words)) && words@
                    == "text render: "@ + e@,
                Drawing::Shown => r is Ok,
            },
    {
        match outcome {
            Drawing::NoSurface(e) => Err(RendererError::Render(e)),
            Drawing::TextNotPrepared(e) => {
                Err(RendererError::Render(join2("text prepare: ", e.as_str())))
            },
            Drawing::TextNotDrawn(e) => {
                self.last_screen_generation = screen.generation();
                Err(RendererError::Render(join2("text render: ", e.as_str())))
            },
            Drawing::Shown => {
                self.last_screen_generation = screen.generation();
                self.damage.mark_clean(screen);
                Ok(())
            },
        }
    }

    /// Takes another size of the surface, on which `rows` rows fit.
    pub fn resize(&mut self, width: u32, height: u32, rows: usize)
        ensures
            final(self).damage@ == (DamageModel {
                row_generations: resized(old(self).damage@.row_generations, rows as nat),
                ..old(self).damage@
            }),
            *final(self) == (TerminalRenderer {
                width: at_least_one(width),
                height: at_least_one(height),
                damage: final(self).damage,
                ..*old(self)
            }),
    {
        self.width = if width == 0 {
            1
        } else {
            width
        };
        self.height = if height == 0 {
            1
        } else {
            height
        };
        self.damage.resize(rows);
    }

    /// The size of the surface in pixels.
    pub fn surface_size(&self) -> (size: (u32, u32))
        ensures
            size == (self.width, self.height),
    {
        (self.width, self.height)
    }

    /// Takes the titles of the tabs, of which one is marked as shown.
    pub fn set_tab_info(&mut self, tabs: Vec<(String, bool)>)
        ensures
            final(self).tab_state.tabs@.len() == tabs@.len(),
            forall|i: int|
                0 <= i < tabs@.len() ==> (#[trigger] final(self).tab_state.tabs@[i]).title@
                    == tabs@[i].0@,
            final(self).tab_state.active_index == first_marked(tabs@, 0),
            *final(self) == (TerminalRenderer {
                tab_state: final(self).tab_state,
                ..*old(self)
            }),
    {
        self.tab_state = TabBarState::from_titles(tabs);
    }

    /// Takes how far the view is scrolled.
    pub fn set_scroll_offset(&mut self, offset: usize)
        ensures
            *final(self) == (TerminalRenderer { scroll_offset: offset, ..*old(self) }),
    {
        self.scroll_offset = offset;
    }

    /// Takes other colours.
    pub fn set_color_scheme(&mut self, scheme: ColorScheme)
        ensures
            *final(self) == (TerminalRenderer { color_scheme: scheme, ..*old(self) }),
    {
        self.color_scheme = scheme;
    }

    /// Takes the shape of the cursor.
    pub fn set_cursor_style(&mut self, style: CursorStyle)
        ensures
            *final(self) == (TerminalRenderer { cursor_style: style, ..*old(self) }),
    {
        self.cursor_style = style;
    }
}

} // verus!

//! What is drawn of a screen.

use forgetty::renderer::color::ColorScheme;
use forgetty::renderer::cursor::CursorStyle;
use forgetty::renderer::damage::DamageTracker;
use forgetty::renderer::frame::{Drawing, FrameCursor, RendererError, TerminalRenderer};
use forgetty::renderer::grid::{background_cells, view_rows, BackgroundCell};
use forgetty::renderer::text_plan::{prepare, row_spans, tab_titles, TextSpan};
use forgetty::vt::{Cell, CellAttributes, Color, Screen};

fn cell(grapheme: &str) -> Cell {
    Cell {
        grapheme: grapheme.to_string(),
        character: grapheme.chars().next().unwrap_or(' '),
        attrs: CellAttributes {
            fg: Color::Default,
            bg: Color::Default,
            bold: false,
            italic: false,
            underline: false,
            strikethrough: false,
            dim: false,
            inverse: false,
        },
    }
}

fn screen(rows: usize, generation: u64, row_generations: Vec<u64>) -> Screen {
    Screen {
        lines: (0..rows).map(|_| vec![cell("a"), cell("b")]).collect(),
        width: 2,
        generation,
        row_generations,
    }
}

#[test]
fn nothing_is_dirty_after_drawing() {
    let mut d = DamageTracker::new(3);
    let s = screen(3, 5, vec![1, 5, 2]);
    assert!(d.needs_full_redraw(&s));
    d.mark_clean(&s);
    assert!(!d.needs_full_redraw(&s));
    assert!(d.dirty_rows(&s).is_empty());
    let later = screen(3, 6, vec![1, 6, 2]);
    assert_eq!(d.dirty_rows(&later), vec![1]);
    d.resize(4);
    assert!(d.needs_full_redraw(&screen(4, 6, vec![1, 6, 2, 2])));
}

#[test]
fn only_other_backgrounds_are_drawn() {
    let scheme = ColorScheme::default();
    let mut s = screen(3, 1, vec![1, 1, 1]);
    s.lines[1][0].attrs.bg = Color::Rgb(1, 2, 3);
    s.lines[2][1].attrs.inverse = true;
    assert_eq!(
        background_cells(&s, &scheme, 1, 2),
        vec![
            BackgroundCell { row: 0, col: 0, color: [1, 2, 3, 255] },
            BackgroundCell { row: 1, col: 1, color: [205, 214, 244, 255] },
        ]
    );
    assert_eq!(view_rows(&s, 1, 10), 2);
    assert_eq!(view_rows(&s, 1, 1), 1);
    assert_eq!(view_rows(&s, 5, 1), 0);
}

#[test]
fn texts_carry_colour_and_cut() {
    let scheme = ColorScheme::default();
    let mut cells = vec![cell("x"), cell("y")];
    cells[0].attrs.bold = true;
    cells[0].attrs.fg = Color::Rgb(9, 9, 9);
    cells[1].attrs.inverse = true;
    let spans = row_spans(&cells, &scheme);
    assert_eq!(
        spans[0],
        TextSpan { text: "x".to_string(), color: [9, 9, 9, 255], bold: true, italic: false }
    );
    assert_eq!(spans[1].color, [40, 40, 40, 255]);
}

#[test]
fn a_cell_is_drawn_by_its_character() {
    // An `e` with an accent of its own, and a cell that was never written.
    let cells = vec![cell("e\u{301}"), cell("")];
    let spans = row_spans(&cells, &ColorScheme::default());
    let texts: Vec<&str> = spans.iter().map(|s| s.text.as_str()).collect();
    assert_eq!(texts, vec!["e", " "]);
}

#[test]
fn tabs_have_titles() {
    let mut r = TerminalRenderer::new(0, 600);
    assert_eq!(r.surface_size(), (1, 600));
    assert_eq!(r.cursor_style, CursorStyle::Bar);
    r.set_tab_info(vec![("vim".to_string(), false), (String::new(), true)]);
    let titles = tab_titles(&r.tab_state);
    assert_eq!(titles[0].text, "vim");
    assert_eq!(titles[0].color, [140, 140, 160, 255]);
    assert_eq!(titles[1].text, "Tab 2");
    assert_eq!(titles[1].color, [220, 220, 240, 255]);
    r.resize(800, 0, 30);
    assert_eq!(r.surface_size(), (800, 1));
    r.set_scroll_offset(7);
    r.set_cursor_style(CursorStyle::Underline);
    assert_eq!((r.scroll_offset, r.cursor_style), (7, CursorStyle::Underline));
}

#[test]
fn texts_of_the_rows_in_view_are_prepared() {
    let scheme = ColorScheme::default();
    let mut s = screen(4, 1, vec![1, 1, 1, 1]);
    s.lines[2][1] = cell("z");
    let rows = prepare(&s, &scheme, 2, 10);
    assert_eq!(rows.len(), 2);
    assert_eq!(rows[0][1].text, "z");
    assert_eq!(prepare(&s, &scheme, 1, 2).len(), 2);
    assert!(prepare(&s, &scheme, 4, 2).is_empty());
}

#[test]
fn a_frame_shows_the_view_and_leaves_it_clean_once_shown() {
    let mut r = TerminalRenderer::new(800, 600);
    let mut s = screen(3, 5, vec![1, 5, 2]);
    s.lines[2][0].attrs.bg = Color::Rgb(1, 2, 3);
    assert!(r.damage.needs_full_redraw(&s));
    r.set_scroll_offset(1);
    r.set_cursor_style(CursorStyle::Block);
    let mut scheme = ColorScheme::default();
    scheme.background = [7, 7, 7, 255];
    r.set_color_scheme(scheme);
    let frame = r.render(&s, (1, 0), true, 9);
    assert_eq!(frame.clear, [7, 7, 7, 255]);
    assert_eq!(
        frame.backgrounds,
        vec![BackgroundCell { row: 1, col: 0, color: [1, 2, 3, 255] }]
    );
    assert_eq!(frame.texts.rows.len(), 2);
    assert_eq!(frame.texts.titles[0].text, "shell");
    assert_eq!(
        frame.cursor,
        Some(FrameCursor {
            row: 1,
            col: 0,
            style: CursorStyle::Block,
            color: [245, 224, 220, 255],
        })
    );
    // A frame that was only planned, or did not come to be shown, is due again.
    let words = |e: &str| Err(RendererError::Render(e.to_string()));
    assert_eq!(r.drawn(&s, Drawing::NoSurface("lost".to_string())), words("lost"));
    assert_eq!(
        r.drawn(&s, Drawing::TextNotPrepared("full".to_string())),
        words("text prepare: full")
    );
    assert_eq!(r.last_screen_generation, 0);
    assert!(r.damage.needs_full_redraw(&s));
    assert_eq!(
        r.drawn(&s, Drawing::TextNotDrawn("gone".to_string())),
        words("text render: gone")
    );
    assert_eq!(r.last_screen_generation, 5);
    assert!(r.damage.needs_full_redraw(&s));
    assert_eq!(r.drawn(&s, Drawing::Shown), Ok(()));
    assert!(!r.damage.needs_full_redraw(&s));
    assert_eq!(r.last_screen_generation, 5);
    assert_eq!(r.render(&s, (1, 0), false, 9).cursor, None);
}

#[test]
fn renderer_errors_have_words() {
    for e in [
        RendererError::Surface("why".to_string()),
        RendererError::Device("why".to_string()),
        RendererError::Render("why".to_string()),
    ] {
        let words = e.message();
        assert!(words.ends_with("why") && words.len() > 3, "{}", words);
    }
}

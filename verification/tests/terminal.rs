//! A pane on the screen: words and addresses, search, pointer, keys, bells and
//! what is drawn.

use forgetty::renderer::color::{Rgba, Theme};
use forgetty::terminal::draw::{
    background_runs, border_spans, draw_terminal, foreground_items, highlights, selection_spans,
    BackgroundRun, Cursor, CursorShape, ForegroundItem, Highlight, RowSpan,
};
use forgetty::terminal::hover::{CodeBlock, HoverState, Motion, MotionStep};
use forgetty::terminal::keys::{
    context_menu, is_app_shortcut, key_step, search_key, Held, KeyStep, KeySym, MenuItem, SearchKey,
};
use forgetty::terminal::lookup::{
    detect_url_at, find_word_boundaries, last_non_whitespace_col, select_all_visible,
};
use forgetty::terminal::pointer::{drag_scroll, PointerState, Press, PressStep};
use forgetty::terminal::search::{collect_matches_from_viewport, scan_step, Page, SearchState};
use forgetty::terminal::state::{create_terminal, font_changed, Appearance, PaneConfig, PointerMove};
use forgetty::terminal::view::{
    bell_payload, closes_at_stream_end, osc_payload, BellMode, NotificationPayload,
    NotificationSource, Output, ViewState, BELL_FLASH,
};
use forgetty::ui::ghostty_input::ScrollAction;
use forgetty::vt::{Cell, CellAttributes, Color, Screen, Selection, SelectionMode};

fn attrs() -> CellAttributes {
    CellAttributes {
        fg: Color::Default,
        bg: Color::Default,
        bold: false,
        italic: false,
        underline: false,
        strikethrough: false,
        dim: false,
        inverse: false,
    }
}

fn cell(grapheme: &str) -> Cell {
    let character = grapheme.chars().next().unwrap_or(' ');
    Cell { grapheme: grapheme.to_string(), character, attrs: attrs() }
}

fn row(s: &str) -> Vec<Cell> {
    s.chars().map(|c| cell(&c.to_string())).collect()
}

fn screen(lines: &[&str]) -> Screen {
    Screen {
        lines: lines.iter().map(|s| row(s)).collect(),
        width: lines.iter().map(|s| s.chars().count()).max().unwrap_or(0),
        generation: 1,
        row_generations: lines.iter().map(|_| 1).collect(),
    }
}

// ---------------------------------------------------------------------------
// Words and addresses
// ---------------------------------------------------------------------------

#[test]
fn a_word_reaches_from_delimiter_to_delimiter() {
    let s = screen(&["let foo = bar(1)"]);
    assert_eq!(find_word_boundaries(&s, 0, 5), (4, 6));
    assert_eq!(find_word_boundaries(&s, 0, 4), (4, 6));
    assert_eq!(find_word_boundaries(&s, 0, 10), (10, 12));
    // A delimiter stands alone.
    assert_eq!(find_word_boundaries(&s, 0, 13), (13, 13));
    assert_eq!(find_word_boundaries(&s, 0, 3), (3, 3));
}

#[test]
fn every_cell_of_a_word_gives_the_word() {
    let s = screen(&["  ab cde f"]);
    for col in 5..8 {
        assert_eq!(find_word_boundaries(&s, 0, col), (5, 7));
    }
}

#[test]
fn the_end_of_a_row_is_its_last_shown_cell() {
    let s = screen(&["ab  ", "    ", "abcd"]);
    assert_eq!(last_non_whitespace_col(&s, 0), 1);
    assert_eq!(last_non_whitespace_col(&s, 1), 0);
    assert_eq!(last_non_whitespace_col(&s, 2), 3);
}

#[test]
fn all_that_is_shown_is_selected() {
    let s = screen(&["ab  ", "xyz ", "    "]);
    let sel = select_all_visible(3, 4, 10, &s).unwrap();
    assert_eq!(sel.start, (10, 0));
    assert_eq!(sel.end.0, 12);
    assert_eq!(select_all_visible(0, 4, 10, &s), None);
}

#[test]
fn addresses_are_found_under_the_pointer() {
    let s = screen(&["see https://a.example/x, or not"]);
    let hover = detect_url_at(&s, 0, 10).unwrap();
    assert_eq!(hover.url, "https://a.example/x");
    assert_eq!((hover.screen_row, hover.col_start, hover.col_end), (0, 4, 23));
    assert_eq!(detect_url_at(&s, 0, 2), None);
    assert_eq!(detect_url_at(&s, 0, 28), None);
    assert_eq!(detect_url_at(&s, 9, 2), None);
}

// ---------------------------------------------------------------------------
// Search
// ---------------------------------------------------------------------------

#[test]
fn every_occurrence_is_found_in_any_case() {
    let s = screen(&["aAa b", "xaax "]);
    let mut out = Vec::new();
    collect_matches_from_viewport(&s, "aa", 100, 2, 5, &mut out);
    assert_eq!(out, vec![(100, 0, 2), (100, 1, 2), (101, 1, 2)]);
}

#[test]
fn steps_through_the_matches_undo_each_other() {
    let mut search = SearchState::new();
    assert!(search.toggle_search(false));
    search.set_query("FOO");
    assert_eq!(search.query, "foo");
    let pages = vec![Page { offset: 0, screen: screen(&["foo bar", "no     ", "a Foo b"]) }];
    search.recompute_all_search_matches(&pages, 3, 7, 0, 3);
    assert_eq!(search.all_matches, vec![(0, 0, 3), (2, 2, 3)]);
    assert_eq!(search.matches, search.all_matches);
    assert_eq!(search.match_label(), "1 of 2");
    search.navigate_search_forward();
    assert_eq!(search.match_label(), "2 of 2");
    search.navigate_search_forward();
    assert_eq!(search.match_label(), "1 of 2");
    search.navigate_search_backward();
    assert_eq!(search.match_label(), "2 of 2");
    search.navigate_search_backward();
    assert_eq!(search.match_label(), "1 of 2");
    search.output_came();
    assert!(search.all_matches.is_empty());
    assert_eq!(search.match_label(), "0 of 0");
    assert!(!search.toggle_search(true));
    assert_eq!(search.query, "");
}

#[test]
fn matches_of_overlapping_pages_count_once() {
    let mut search = SearchState::new();
    search.open();
    search.set_query("k");
    let pages = vec![
        Page { offset: 0, screen: screen(&["k ", " k"]) },
        Page { offset: 1, screen: screen(&[" k", "kk"]) },
    ];
    search.recompute_all_search_matches(&pages, 2, 2, 1, 2);
    assert_eq!(search.all_matches, vec![(0, 0, 1), (1, 1, 1), (2, 0, 1), (2, 1, 1)]);
    assert_eq!(search.matches, vec![(0, 1, 1), (1, 0, 1), (1, 1, 1)]);
    assert_eq!(search.current_viewport_index, None);
    search.navigate_search_forward();
    search.filter_viewport_matches(1, 2);
    assert_eq!(search.current_viewport_index, Some(0));
}

#[test]
fn the_focused_match_is_brought_into_view() {
    let mut search = SearchState::new();
    search.open();
    search.set_query("z");
    let pages = vec![Page { offset: 50, screen: screen(&["z"]) }];
    search.recompute_all_search_matches(&pages, 1, 1, 0, 9);
    // A third of the view stays above it.
    assert_eq!(search.focus_scroll(100, 0, 9), Some(47));
    assert_eq!(search.focus_scroll(52, 0, 9), Some(43));
    assert_eq!(SearchState::new().focus_scroll(100, 0, 9), None);
}

#[test]
fn a_scan_reaches_the_last_page() {
    let mut offset = 0;
    let mut seen = vec![offset];
    while let Some(step) = scan_step(offset, 25, 10) {
        assert!(step > 0);
        offset += step;
        seen.push(offset);
    }
    assert_eq!(seen, vec![0, 10, 20, 25]);
    // Ten rows high, the pages leave out none of the thirty-five rows.
    for row in 0..35 {
        assert!(seen.iter().any(|start| *start <= row && row < start + 10));
    }
    assert_eq!(scan_step(0, 0, 10), None);
    assert_eq!(scan_step(3, 9, 0), None);
}

// ---------------------------------------------------------------------------
// Pointer
// ---------------------------------------------------------------------------

fn press(n_press: i32, row: usize, col: usize) -> Press {
    Press {
        button: 1,
        n_press,
        ctrl: false,
        shift: false,
        mouse_tracking: false,
        row,
        col,
        offset: 10,
        copy_button: None,
    }
}

#[test]
fn a_click_selects_nothing() {
    let s = screen(&["some words here"]);
    let mut p = PointerState::new();
    assert_eq!(p.press(&press(1, 0, 3), &s), PressStep::Redraw);
    assert!(p.release(1));
    assert_eq!(p.selection, None);
}

#[test]
fn a_drag_selects_from_where_it_began() {
    let s = screen(&["some words here", "and more of it "]);
    let mut p = PointerState::new();
    p.press(&press(1, 0, 3), &s);
    p.drag(1, 5, 10, &s);
    assert!(p.release(1));
    assert_eq!(
        p.selection,
        Some(Selection { start: (10, 3), end: (11, 5), mode: SelectionMode::Normal })
    );
    p.clear();
    assert_eq!(p.selection, None);
}

#[test]
fn dragging_words_keeps_the_first() {
    let s = screen(&["some words here"]);
    let mut p = PointerState::new();
    p.press(&press(2, 0, 6), &s);
    assert_eq!(
        p.selection,
        Some(Selection { start: (10, 5), end: (10, 9), mode: SelectionMode::Word })
    );
    p.drag(0, 12, 10, &s);
    assert_eq!(p.selection.unwrap().ordered(), ((10, 5), (10, 14)));
    p.drag(0, 1, 10, &s);
    assert_eq!(p.selection.unwrap().ordered(), ((10, 0), (10, 9)));
}

#[test]
fn three_clicks_select_a_line() {
    let s = screen(&["some words   "]);
    let mut p = PointerState::new();
    p.press(&press(3, 0, 6), &s);
    assert_eq!(
        p.selection,
        Some(Selection { start: (10, 0), end: (10, 9), mode: SelectionMode::Line })
    );
    p.select_all(1, 13, 10, &s);
    assert_eq!(p.selection.unwrap().start, (10, 0));
}

#[test]
fn presses_go_where_they_belong() {
    let s = screen(&["https://a.example b"]);
    let mut p = PointerState::new();
    let mut right = press(1, 0, 3);
    right.button = 3;
    assert_eq!(
        p.press(&right, &s),
        PressStep::ContextMenu {
            url: Some("https://a.example".to_string()),
            has_selection: false,
        }
    );
    let mut open = press(1, 0, 3);
    open.ctrl = true;
    assert_eq!(p.press(&open, &s), PressStep::OpenUrl("https://a.example".to_string()));
    let mut copy = press(1, 0, 18);
    copy.copy_button = Some(true);
    assert_eq!(p.press(&copy, &s), PressStep::CopyBlock);
    let mut wanted = press(1, 0, 18);
    wanted.mouse_tracking = true;
    assert_eq!(p.press(&wanted, &s), PressStep::Encode);
    wanted.shift = true;
    assert_eq!(p.press(&wanted, &s), PressStep::Redraw);
    let mut middle = press(1, 0, 18);
    middle.button = 2;
    assert_eq!(p.press(&middle, &s), PressStep::Nothing);
}

#[test]
fn a_drag_beyond_the_edge_scrolls() {
    assert_eq!(drag_scroll(false, false), 0);
    assert!(drag_scroll(true, false) < 0);
    assert!(drag_scroll(false, true) > 0);
}

// ---------------------------------------------------------------------------
// Hovering
// ---------------------------------------------------------------------------

#[test]
fn the_pointer_becomes_a_hand_over_an_address() {
    let s = screen(&["https://a.example b"]);
    let mut h = HoverState::new();
    let at = |col: usize| Motion { row: 0, col, mouse_tracking: false, alternate_screen: false };
    let none: Vec<CodeBlock> = Vec::new();
    assert_eq!(h.motion(&at(2), &s, &none).hand, Some(true));
    assert_eq!(h.hover_url.as_ref().unwrap().url, "https://a.example");
    assert_eq!(h.motion(&at(2), &s, &none).hand, None);
    assert_eq!(h.motion(&at(18), &s, &none).hand, Some(false));
    assert_eq!(h.hover_url, None);
}

#[test]
fn blocks_of_code_are_framed_under_the_pointer() {
    let s = screen(&["....", "....", "...."]);
    let block = CodeBlock { top_row: 1, bottom_row: 2, left_col: 0, right_col: 2 };
    assert!(block.contains(1, 0) && block.contains(2, 2));
    assert!(!block.contains(0, 0));
    let mut h = HoverState::new();
    let at = Motion { row: 1, col: 1, mouse_tracking: false, alternate_screen: false };
    assert!(h.motion(&at, &s, &vec![block]).redraw);
    assert_eq!(h.hovered_code_block, Some(block));
    assert!(h.leave());
    assert_eq!(h.hovered_code_block, None);
}

// ---------------------------------------------------------------------------
// Keys
// ---------------------------------------------------------------------------

fn held(ctrl: bool, shift: bool, alt: bool) -> Held {
    Held { ctrl, shift, alt }
}

#[test]
fn shortcuts_belong_to_the_window() {
    assert!(is_app_shortcut(KeySym::Char('v'), held(true, false, false)));
    assert!(is_app_shortcut(KeySym::Char('C'), held(true, true, false)));
    assert!(is_app_shortcut(KeySym::Left, held(false, false, true)));
    assert!(is_app_shortcut(KeySym::Char('_'), held(false, true, true)));
    assert!(is_app_shortcut(KeySym::Char('9'), held(true, false, true)));
    assert!(is_app_shortcut(KeySym::F1, held(false, false, false)));
    assert!(!is_app_shortcut(KeySym::Char('c'), held(true, false, false)));
    assert!(!is_app_shortcut(KeySym::Char('a'), held(false, false, false)));
    assert!(!is_app_shortcut(KeySym::Char('n'), held(true, true, true)));
}

#[test]
fn control_c_copies_or_interrupts() {
    let c = KeySym::Char('c');
    let ctrl = held(true, false, false);
    assert_eq!(key_step(c, ctrl, true, false), KeyStep::Copy);
    assert_eq!(key_step(c, ctrl, false, false), KeyStep::Interrupt);
    assert_eq!(key_step(KeySym::Char('a'), held(false, false, false), false, false), KeyStep::Encode);
    assert_eq!(key_step(KeySym::Char('v'), ctrl, false, false), KeyStep::Propagate);
}

#[test]
fn the_search_bar_has_keys() {
    let plain = held(false, false, false);
    assert_eq!(search_key(KeySym::Escape, plain), SearchKey::Close);
    assert_eq!(search_key(KeySym::Return, held(false, true, false)), SearchKey::Previous);
    assert_eq!(search_key(KeySym::Return, plain), SearchKey::Propagate);
}

#[test]
fn the_menu_offers_what_can_be_done() {
    let enabled = |items: &Vec<MenuItem>, wanted: &str| {
        items.iter().find_map(|i| match i {
            MenuItem::Entry { label, enabled, .. } if label == wanted => Some(*enabled),
            _ => None,
        })
    };
    let items = context_menu(None, false);
    assert_eq!(enabled(&items, "Copy"), Some(false));
    assert_eq!(enabled(&items, "Paste"), Some(true));
    let items = context_menu(Some("https://a.example"), true);
    assert_eq!(enabled(&items, "Copy"), Some(true));
    assert!(items.len() > context_menu(None, true).len());
    assert!(items.contains(&MenuItem::Separator));
}

// ---------------------------------------------------------------------------
// The view
// ---------------------------------------------------------------------------

fn output(now: u64, bells: Vec<u64>) -> Output {
    Output { now, offset: 0, alternate_screen: false, bells, notice: false, focused: false }
}

#[test]
fn bells_keep_their_distance() {
    let mut v = ViewState::new(10_000, BellMode::Both, true);
    let step = v.output(&output(20_000, vec![20_000, 20_050, 20_250]));
    assert_eq!(step.audio_bells, 2);
    assert!(step.flash);
    assert!(v.flashing(20_250));
    assert!(!v.flashing(20_250 + BELL_FLASH));
    let mut silent = ViewState::new(10_000, BellMode::Silent, true);
    let step = silent.output(&output(20_000, vec![20_000]));
    assert_eq!(step.audio_bells, 0);
    assert!(!step.flash);
}

#[test]
fn notices_keep_their_distance() {
    let mut v = ViewState::new(10_000, BellMode::Silent, true);
    let notice = |now: u64| Output {
        now,
        offset: 0,
        alternate_screen: false,
        bells: vec![],
        notice: true,
        focused: false,
    };
    assert!(v.output(&notice(20_000)).desktop);
    assert_eq!(v.last_notification, 20_000);
    let soon = v.output(&notice(21_999));
    assert!(soon.osc_notice && !soon.desktop);
    assert!(v.output(&notice(22_000)).desktop);
}

#[test]
fn an_interrupt_quiets_the_bell() {
    let mut v = ViewState::new(10_000, BellMode::Audio, true);
    v.interrupted(20_000, 0);
    let step = v.output(&output(20_100, vec![20_100]));
    assert_eq!(step.audio_bells, 0);
    let step = v.output(&output(21_000, vec![21_000]));
    assert_eq!(step.audio_bells, 1);
}

#[test]
fn a_scrolled_view_is_not_moved_by_output() {
    let mut v = ViewState::new(10_000, BellMode::Silent, false);
    assert!(v.output(&output(10_001, vec![])).to_bottom);
    v.scrolled(100, 20, 24);
    assert!(v.scroll_lock);
    assert!(!v.output(&output(10_002, vec![])).to_bottom);
    v.scrolled(100, 76, 24);
    assert!(!v.scroll_lock);
}

#[test]
fn resizes_are_told_to_the_program() {
    let mut v = ViewState::new(10_000, BellMode::Silent, false);
    assert_eq!(v.resized(30, 100), Some((30, 100)));
    assert_eq!((v.rows, v.cols), (30, 100));
    assert_eq!(v.resized(30, 100), None);
}

#[test]
fn a_copy_is_confirmed_for_a_while() {
    let mut v = ViewState::new(10_000, BellMode::Silent, false);
    assert!(!v.confirming_copy(10_005));
    v.copied(10_100);
    assert!(v.confirming_copy(11_000));
    assert!(!v.confirming_copy(12_000));
}

#[test]
fn notifications_say_where_they_come_from() {
    let p = bell_payload("build");
    assert_eq!(p.pane_name, "build");
    assert_eq!(p.source, None);
    let given = NotificationPayload {
        title: String::new(),
        body: "done".to_string(),
        pane_name: String::new(),
        source: Some(NotificationSource::Osc9),
    };
    let (_, shown) = osc_payload(given, "build", true);
    assert_eq!(shown.body, "done");
    assert_eq!(shown.source, Some(NotificationSource::Osc9));
    assert!(closes_at_stream_end(Some(true)));
    assert!(!closes_at_stream_end(Some(false)));
}

#[test]
fn a_terminal_ties_view_hover_and_search() {
    let mut t = create_terminal(10_000, BellMode::Silent, false);
    t.search.open();
    t.search.set_query("x");
    let pages = vec![Page { offset: 0, screen: screen(&["x"]) }];
    t.search.recompute_all_search_matches(&pages, 1, 1, 0, 1);
    assert_eq!(t.search.all_matches.len(), 1);
    t.output(&output(10_001, vec![]));
    assert!(t.search.all_matches.is_empty());
    assert_eq!(
        t.key_pressed(KeySym::Char('v'), held(true, false, false), false),
        KeyStep::Propagate
    );
    assert_eq!(
        t.wheel(ScrollAction::WriteBytes(vec![1]), 10, 0, 5),
        Some(vec![1])
    );
    assert_eq!(t.wheel(ScrollAction::ScrollViewport(-3), 10, 0, 5), None);
}

#[test]
fn a_new_terminal_is_large_and_quiet() {
    let t = create_terminal(10_000, BellMode::Both, true);
    assert_eq!((t.view.rows, t.view.cols), (80, 240));
    assert_eq!((t.view.last_bell, t.view.last_notification), (9_000, 0));
    assert_eq!(t.view.bell_flash_until, None);
    assert!(!t.view.notification_ring);
    assert_eq!(t.search, SearchState::new());
    assert_eq!(t.hover, HoverState::new());
}

#[test]
fn the_pointer_drags_or_hovers() {
    let s = screen(&["see http://a.b ok"]);
    let mut t = create_terminal(10_000, BellMode::Silent, false);
    let at = |col: usize| Motion { row: 0, col, mouse_tracking: false, alternate_screen: false };
    assert_eq!(
        t.pointer_moved(&at(5), &s, &Vec::new()),
        PointerMove::Hovered(MotionStep { hand: Some(true), redraw: true })
    );
    assert_eq!(
        t.pointer_moved(&at(6), &s, &Vec::new()),
        PointerMove::Hovered(MotionStep { hand: None, redraw: false })
    );
    t.view.pointer.press(&press(1, 0, 2), &s);
    assert_eq!(t.pointer_moved(&at(8), &s, &Vec::new()), PointerMove::Dragged);
    assert!(t.view.pointer.selection.is_some());
}

#[test]
fn a_larger_font_searches_again() {
    let mut t = create_terminal(10_000, BellMode::Silent, false);
    let pages = vec![Page { offset: 0, screen: screen(&["abcx", "x"]) }];
    // Without a query there is nothing to look for.
    t.apply_font_zoom(2, 3, &pages, 7, 2);
    assert_eq!((t.view.rows, t.view.cols), (2, 3));
    assert_eq!(t.view.suppress_selection_clear_ticks, 12);
    assert_eq!(t.view.viewport_offset, 0);
    t.search.set_query("X");
    // Three columns do not reach the first.
    t.apply_font_zoom(2, 3, &pages, 0, 2);
    assert_eq!(t.search.all_matches, vec![(1, 0, 1)]);
    t.apply_font_zoom(2, 4, &pages, 1, 2);
    assert_eq!(t.search.all_matches, vec![(0, 3, 1), (1, 0, 1)]);
    assert_eq!(t.search.matches, vec![(0, 0, 1)]);
    assert_eq!(t.view.viewport_offset, 1);
    t.search_again(&Vec::new(), 5, 2);
    assert!(t.search.all_matches.is_empty());
    assert_eq!(t.view.viewport_offset, 1);
}

#[test]
fn the_cursor_blinks_and_idle_memory_is_given_back_once() {
    let mut v = ViewState::new(10_000, BellMode::Silent, false);
    assert!(!v.blink_tick(10_600));
    assert!(!v.cursor_blink_visible);
    assert!(!v.blink_tick(14_999));
    assert!(v.cursor_blink_visible);
    assert!(v.blink_tick(15_000));
    assert!(!v.blink_tick(20_000));
    v.output(&output(20_100, vec![]));
    assert!(v.blink_tick(25_100));
}

#[test]
fn the_scroll_bar_follows_and_leads() {
    let mut v = ViewState::new(10_000, BellMode::Silent, false);
    assert!(v.scrollbar_tick(100, 76, 24));
    assert_eq!(v.viewport_offset, 76);
    assert!(!v.scrollbar_tick(24, 0, 24));
    assert_eq!(v.scrollbar_moved(10, 76, 100, 24), Some(-66));
    assert_eq!(v.viewport_offset, 10);
    assert_eq!(v.scrollbar_moved(10, 10, 100, 24), None);
    // Away from the bottom output does not move the view.
    assert!(v.scroll_lock);
    let mut locked = v;
    assert!(!locked.output(&output(11_000, vec![])).to_bottom);
    v.updating_scrollbar = true;
    assert_eq!(v.scrollbar_moved(76, 10, 100, 24), None);
    assert!(v.scroll_lock);
    assert_eq!(v.viewport_offset, 10);
    v.updating_scrollbar = false;
    assert_eq!(v.scrollbar_moved(76, 10, 100, 24), Some(66));
    assert!(!v.scroll_lock);
    assert!(v.output(&output(11_000, vec![])).to_bottom);
}

#[test]
fn another_configuration_takes_effect_at_the_next_bell() {
    let mut v = ViewState::new(10_000, BellMode::Silent, false);
    v.apply_config_change(BellMode::Both, true);
    let step = v.output(&output(11_000, vec![11_000]));
    assert_eq!(step.audio_bells, 1);
    assert!(step.flash);
    assert_eq!(v.bell_flash_until, Some(11_000 + BELL_FLASH));
}

#[test]
fn a_font_is_its_family_and_size() {
    assert!(font_changed("Mono", "Serif", false));
    assert!(font_changed("Mono", "Mono", true));
    assert!(!font_changed("Mono", "Mono", false));
}

#[test]
fn another_configuration_resets_the_zoom_with_the_font() {
    let theme = |n: u8| {
        let c = Rgba { r: n, g: n, b: n, a: 255 };
        Theme { foreground: c, background: c, cursor: c, selection: c, ansi_colors: [c; 16] }
    };
    let config = |family: &str, size: f32, n: u8| PaneConfig {
        theme: theme(n),
        font_family: family.to_string(),
        font_size: size.to_bits(),
        bell_mode: BellMode::Audio,
        notifications: true,
    };
    let mut s = create_terminal(10_000, BellMode::Silent, false);
    let mut look = Appearance {
        theme: theme(1),
        font_family: "Mono".to_string(),
        configured_size: 12f32.to_bits(),
        font_size: 15f32.to_bits(),
        default_font_size: 12f32.to_bits(),
    };
    // Only the colours change: the zoom stays.
    assert!(!s.apply_config_change(&mut look, &config("Mono", 12.0, 2), false));
    assert_eq!((s.view.bell_mode, s.view.notifications), (BellMode::Audio, true));
    assert_eq!((look.theme, look.font_size), (theme(2), 15f32.to_bits()));
    // Another family, or another size: the zoom is gone.
    assert!(s.apply_config_change(&mut look, &config("Serif", 12.0, 2), false));
    assert_eq!((look.font_family.as_str(), look.font_size), ("Serif", 12f32.to_bits()));
    assert!(s.apply_config_change(&mut look, &config("Serif", 14.0, 2), true));
    assert_eq!((look.configured_size, look.font_size), (14f32.to_bits(), 14f32.to_bits()));
    assert_eq!(look.default_font_size, 14f32.to_bits());
}

// ---------------------------------------------------------------------------
// Drawing
// ---------------------------------------------------------------------------

#[test]
fn neighbouring_backgrounds_are_one_run() {
    let mut cells = row("abcde");
    for i in [1, 2, 4] {
        cells[i].attrs.bg = Color::Rgb(9, 8, 7);
    }
    cells[4].attrs.bg = Color::Rgb(1, 2, 3);
    assert_eq!(
        background_runs(&cells, 5),
        vec![
            BackgroundRun { start: 1, end: 3, r: 9, g: 8, b: 7 },
            BackgroundRun { start: 4, end: 5, r: 1, g: 2, b: 3 },
        ]
    );
}

#[test]
fn blanks_are_not_drawn_and_blocks_are_joined() {
    let cells = row("a \u{2588}\u{2588}b");
    assert_eq!(
        foreground_items(&cells, 5),
        vec![
            ForegroundItem::Text { col: 0 },
            ForegroundItem::Blocks { start: 2, end: 4, fg: Color::Default, dim: false },
            ForegroundItem::Text { col: 4 },
        ]
    );
}

#[test]
fn a_selection_is_drawn_row_by_row() {
    let sel = Selection { start: (11, 3), end: (13, 1), mode: SelectionMode::Normal };
    let span = |row: usize, start: usize, end: usize| RowSpan { row, start, end };
    assert_eq!(
        selection_spans(&sel, 10, 5, 8),
        vec![span(1, 3, 8), span(2, 0, 8), span(3, 0, 2)]
    );
    assert_eq!(selection_spans(&sel, 20, 5, 8), Vec::new());
}

#[test]
fn matches_and_frames_are_drawn() {
    let span = |row: usize, start: usize, end: usize| RowSpan { row, start, end };
    assert_eq!(
        highlights(&vec![(0, 1, 2), (1, 0, 3)], Some(1), 2, 8),
        vec![
            Highlight { span: span(0, 1, 3), current: false },
            Highlight { span: span(1, 0, 3), current: true },
        ]
    );
    let block = CodeBlock { top_row: 0, bottom_row: 9, left_col: 2, right_col: 5 };
    let spans = border_spans(&block, 3);
    assert!(!spans.is_empty());
    assert!(spans.iter().all(|s| s.row < 3));
}

#[test]
fn a_scene_holds_what_is_shown() {
    let mut view = ViewState::new(10_000, BellMode::Silent, false);
    view.rows = 2;
    view.cols = 4;
    let mut search = SearchState::new();
    let hover = HoverState::new();
    let s = screen(&["ab c", "d   "]);
    let cursor = Cursor {
        row: 1,
        col: 0,
        visible: true,
        blinking: false,
        shape_code: 1,
        color: None,
    };
    let scene = draw_terminal(&mut view, &mut search, &hover, &s, &cursor, true, 10_005, 0, 2);
    assert_eq!(scene.foregrounds[0].len(), 3);
    assert_eq!(scene.foregrounds[1], vec![ForegroundItem::Text { col: 0 }]);
    let drawn = scene.cursor.unwrap();
    assert_eq!((drawn.row, drawn.col, drawn.shape), (1, 0, CursorShape::Block));
    assert!(!scene.dimmed);
    let away = draw_terminal(&mut view, &mut search, &hover, &s, &cursor, false, 10_005, 0, 2);
    assert_eq!(away.cursor, None);
    let hidden = Cursor { visible: false, ..cursor };
    let scene = draw_terminal(&mut view, &mut search, &hover, &s, &hidden, true, 10_005, 0, 2);
    assert_eq!(scene.cursor, None);
}

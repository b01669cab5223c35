//! Keys, tabs and the window.

use forgetty::ui::app::{needs_pane, wheel_input, App, KeyOutcome, WindowEvent, WindowStep};
use forgetty::ui::ghostty_input::{
    encoded_or_text, handle_scroll, key_plan, refine_key_with_physical, unshifted_codepoint,
    wheel_button, winit_key_to_ghostty, winit_mouse_button_to_ghostty, GhosttyInput, GhosttyKey,
    KeyAction, MouseButton, ScrollAction,
};
use forgetty::ui::input::{encode_key, encode_named_key};
use forgetty::ui::keybindings::{Action, KeyBindings};
use forgetty::ui::keys::{bytes_of_text, same_key, Key, KeyEvent, Modifiers, NamedKey, PhysicalKey};
use forgetty::ui::notifications::{check_notifications, Notification, TerminalEvent, Urgency};
use forgetty::ui::pane::{Pane, PaneId};
use forgetty::ui::pane_tree::SplitDirection;
use forgetty::ui::tab::{Tab, TabId};
use forgetty::ui::tab_bar::{TabBar, TabBarEntry};

/// The panes that a window gives a new size.
fn resized(app: &mut App, width: u32, height: u32) -> Vec<PaneId> {
    match app.window_event(WindowEvent::Resized { width, height }) {
        WindowStep::Resize { panes } => panes,
        other => {
            assert_eq!(other, WindowStep::Nothing);
            Vec::new()
        }
    }
}

fn mods(control: bool, shift: bool) -> Modifiers {
    Modifiers { shift, control, alt: false, super_key: false }
}

fn typed(s: &str) -> KeyEvent {
    KeyEvent {
        logical_key: Key::Character(s.to_string()),
        physical_key: PhysicalKey::Elsewhere,
        text: Some(s.to_string()),
        pressed: true,
    }
}

fn named(key: NamedKey) -> KeyEvent {
    KeyEvent {
        logical_key: Key::Named(key),
        physical_key: PhysicalKey::Elsewhere,
        text: None,
        pressed: true,
    }
}

#[test]
fn keys_send_bytes() {
    assert_eq!(encode_key(&typed("a"), mods(false, false)), Some(b"a".to_vec()));
    assert_eq!(encode_key(&typed("é"), mods(false, false)), Some("é".as_bytes().to_vec()));
    assert_eq!(encode_key(&typed("c"), mods(true, false)), Some(vec![3]));
    assert_eq!(encode_key(&typed("C"), mods(true, true)), Some(vec![3]));
    assert_eq!(encode_key(&typed("["), mods(true, false)), Some(vec![0x1b]));
    assert_eq!(encode_key(&typed("@"), mods(true, false)), Some(vec![0]));
    assert_eq!(encode_key(&typed("1"), mods(true, false)), None);
    assert_eq!(encode_key(&named(NamedKey::Space), mods(true, false)), Some(vec![0]));
    assert_eq!(encode_key(&named(NamedKey::Enter), mods(false, false)), Some(vec![13]));
    assert_eq!(encode_key(&named(NamedKey::ArrowUp), mods(false, false)), Some(b"\x1b[A".to_vec()));
    assert_eq!(encode_named_key(NamedKey::Delete), Some(b"\x1b[3~".to_vec()));
    assert_eq!(encode_named_key(NamedKey::F1), Some(b"\x1bOP".to_vec()));
    assert_eq!(encode_named_key(NamedKey::F12), Some(b"\x1b[24~".to_vec()));
    assert_eq!(encode_named_key(NamedKey::Shift), None);
    let mut up = typed("a");
    up.pressed = false;
    assert_eq!(encode_key(&up, mods(false, false)), None);
    assert_eq!(bytes_of_text(&typed("ab")), Some(b"ab".to_vec()));
}

#[test]
fn combinations_do_something() {
    let b = KeyBindings::default_bindings();
    assert_eq!(b.match_key(&typed("T"), mods(true, true)), Action::NewTab);
    assert_eq!(b.match_key(&typed("T"), mods(true, false)), Action::Nothing);
    assert_eq!(b.match_key(&named(NamedKey::Tab), mods(true, false)), Action::NextTab);
    assert_eq!(b.match_key(&named(NamedKey::Tab), mods(true, true)), Action::PrevTab);
    assert_eq!(b.match_key(&typed("a"), mods(false, false)), Action::Nothing);
    assert!(same_key(&Key::Named(NamedKey::Tab), &Key::Named(NamedKey::Tab)));
    assert!(!same_key(&Key::Character("a".to_string()), &Key::Character("b".to_string())));
}

#[test]
fn a_key_is_told_to_the_terminal() {
    let lower = winit_key_to_ghostty(&Key::Character("A".to_string()));
    assert_eq!(lower, winit_key_to_ghostty(&Key::Character("a".to_string())));
    assert_eq!(unshifted_codepoint(&Key::Character("A".to_string())), 'a' as u32);
    assert_eq!(unshifted_codepoint(&Key::Named(NamedKey::Tab)), 0);
    let enter = winit_key_to_ghostty(&Key::Named(NamedKey::Enter));
    assert_eq!(
        refine_key_with_physical(enter, PhysicalKey::NumpadEnter),
        GhosttyKey::Physical(PhysicalKey::NumpadEnter)
    );
    assert_eq!(refine_key_with_physical(enter, PhysicalKey::Elsewhere), enter);
    let plan = key_plan(&typed("A"), mods(false, true), true, false);
    assert_eq!(plan.action, KeyAction::Press);
    assert_eq!(plan.unshifted, 'a' as u32);
    assert_eq!(plan.text, Some(b"A".to_vec()));
    assert_eq!(encoded_or_text(vec![1, 2], plan), Some(vec![1, 2]));
    let plan = key_plan(&typed("A"), mods(false, true), true, true);
    assert_eq!(plan.action, KeyAction::Repeat);
    assert_eq!(encoded_or_text(Vec::new(), plan), Some(b"A".to_vec()));
    let plan = key_plan(&typed("A"), mods(false, false), false, false);
    assert_eq!(plan.action, KeyAction::Release);
    assert_eq!(encoded_or_text(Vec::new(), plan), None);
}

#[test]
fn buttons_are_held_until_they_go_up() {
    let mut input = GhosttyInput::new();
    assert_eq!(input.held_button(), None);
    let left = winit_mouse_button_to_ghostty(MouseButton::Left);
    assert_eq!(input.button(MouseButton::Left, true), left);
    assert_eq!(input.held_button(), left);
    assert_eq!(input.button(MouseButton::Left, false), left);
    assert_eq!(input.held_button(), None);
    assert_eq!(input.button(MouseButton::Other(900), true), None);
    assert_eq!(input.held_button(), None);
}

#[test]
fn the_wheel_scrolls_or_is_sent() {
    assert_ne!(wheel_button(true), wheel_button(false));
    assert_eq!(
        handle_scroll(true, true, vec![1], vec![2]),
        ScrollAction::WriteBytes(vec![1, 2])
    );
    match (handle_scroll(true, false, vec![], vec![]), handle_scroll(false, false, vec![], vec![])) {
        (ScrollAction::ScrollViewport(up), ScrollAction::ScrollViewport(down)) => {
            assert!(up < 0 && down > 0);
        }
        other => panic!("expected the view to move, got {:?}", other),
    }
    assert_eq!(wheel_input(2), b"\x1b[A\x1b[A".to_vec());
    assert_eq!(wheel_input(-1), b"\x1b[B".to_vec());
    assert_eq!(wheel_input(0), Vec::<u8>::new());
}

#[test]
fn a_window_starts_with_one_tab() {
    let empty = App::new();
    assert_eq!(empty.tab_count(), 0);
    assert_eq!(empty.focused_pane_id(), None);
    let app = App::start(Ok(())).unwrap();
    assert_eq!(app.tab_count(), 1);
    assert!(app.focused_pane_id().is_some());
    assert_eq!(
        App::start(Err("no shell".to_string())).unwrap_err(),
        "Failed to spawn initial shell: no shell"
    );
}

#[test]
fn tabs_are_walked_in_a_circle() {
    let mut app = App::start(Ok(())).unwrap();
    assert_eq!(app.tab_count(), 1);
    for _ in 0..2 {
        app.new_tab(true);
    }
    assert_eq!(app.tab_count(), 3);
    let last = app.focused_pane_id();
    app.next_tab();
    let first = app.focused_pane_id();
    assert_ne!(first, last);
    app.prev_tab();
    assert_eq!(app.focused_pane_id(), last);
    app.next_tab();
    app.next_tab();
    app.next_tab();
    assert_eq!(app.focused_pane_id(), last);
}

#[test]
fn panes_are_split_and_closed() {
    let mut app = App::start(Ok(())).unwrap();
    let a = app.focused_pane_id().unwrap();
    app.split_focused(SplitDirection::Horizontal, true);
    // The focus stays where it was.
    assert_eq!(app.focused_pane_id(), Some(a));
    let b = resized(&mut app, 800, 600)[1];
    assert_ne!(a, b);
    assert_eq!(resized(&mut app, 800, 600), vec![a, b]);
    assert_eq!(resized(&mut app, 0, 600), Vec::new());
    assert_eq!(app.handle_action(Action::FocusRight, false), Vec::new());
    assert_eq!(app.focused_pane_id(), Some(b));
    assert_eq!(app.handle_action(Action::FocusLeft, false), Vec::new());
    assert_eq!(app.focused_pane_id(), Some(a));
    assert_eq!(app.close_focused_pane(), vec![a]);
    assert_eq!(app.focused_pane_id(), Some(b));
    assert_eq!(app.tab_count(), 1);
    assert_eq!(app.close_requested(), vec![b]);
    assert!(!app.exits());
    assert_eq!(app.close_active_tab(), vec![b]);
    assert!(app.exits());
}

#[test]
fn keys_act_or_are_written() {
    let mut app = App::start(Ok(())).unwrap();
    let pane = app.focused_pane_id();
    assert_eq!(
        app.keyboard_input(&typed("x")),
        KeyOutcome::Write { pane, bytes: b"x".to_vec() }
    );
    app.modifiers_changed(mods(true, true));
    assert_eq!(app.keyboard_input(&typed("T")), KeyOutcome::Act(Action::NewTab));
    let mut up = typed("T");
    up.pressed = false;
    assert_eq!(app.keyboard_input(&up), KeyOutcome::Ignore);
    assert!(needs_pane(Action::NewTab) && needs_pane(Action::SplitVertical));
    assert!(!needs_pane(Action::CloseTab));
    // A tab whose program did not start is none.
    app.new_tab(false);
    assert_eq!(app.tab_count(), 1);
    assert_eq!(app.input_pane(), pane);
    app.close_active_tab();
    assert_eq!(app.input_pane(), None);
}

#[test]
fn windows_answer_what_happens_to_them() {
    let mut app = App::start(Ok(())).unwrap();
    let pane = app.focused_pane_id();
    assert_eq!(
        app.window_event(WindowEvent::MouseWheel { lines: -2 }),
        WindowStep::Write { pane, bytes: b"\x1b[B\x1b[B".to_vec() }
    );
    assert_eq!(
        app.window_event(WindowEvent::RedrawRequested),
        WindowStep::Draw { shown: pane, closes: false }
    );
    assert_eq!(
        app.window_event(WindowEvent::ModifiersChanged(mods(true, true))),
        WindowStep::Nothing
    );
    assert_eq!(
        app.window_event(WindowEvent::KeyboardInput(typed("T"))),
        WindowStep::Key(KeyOutcome::Act(Action::NewTab))
    );
    assert_eq!(app.window_event(WindowEvent::Other), WindowStep::Nothing);
    assert_eq!(
        app.window_event(WindowEvent::CloseRequested),
        WindowStep::Close { ended: vec![pane.unwrap()] }
    );
    app.close_active_tab();
    assert_eq!(
        app.window_event(WindowEvent::RedrawRequested),
        WindowStep::Draw { shown: None, closes: true }
    );
}

#[test]
fn focus_moves_among_the_panes_of_a_tab() {
    let mut counter = 5;
    assert_eq!(PaneId::next(&mut counter), PaneId(5));
    assert_eq!(counter, 6);
    assert_eq!(TabId::next(&mut counter), TabId(6));
    let mut tab = Tab::new(TabId(1), PaneId(1));
    tab.split(SplitDirection::Vertical, PaneId(2));
    assert_eq!(tab.focused_pane, PaneId(1));
    tab.focus_next();
    assert_eq!(tab.focused_pane, PaneId(2));
    tab.focus_next();
    assert_eq!(tab.focused_pane, PaneId(1));
    tab.focus_direction(SplitDirection::Vertical, true);
    assert_eq!(tab.focused_pane, PaneId(2));
    tab.focus_direction(SplitDirection::Vertical, true);
    assert_eq!(tab.focused_pane, PaneId(2));
    assert!(!tab.close_pane(PaneId(2)));
    assert_eq!(tab.focused_pane, PaneId(1));
    assert!(tab.close_pane(PaneId(1)));
}

#[test]
fn panes_are_titled_after_their_directory() {
    let mut p = Pane::new(PaneId(1), None);
    assert_eq!(p.display_title(), "shell");
    p.drained(false, "vim", false, Some("/ignored".to_string()));
    assert_eq!(p.display_title(), "vim");
    p.drained(false, "", true, Some("/home/u/src".to_string()));
    assert_eq!(p.display_title(), "src");
    p.drained(true, "", true, Some("/".to_string()));
    assert_eq!(p.display_title(), "/");
    assert!(p.shell_exited());
}

#[test]
fn bells_and_titles_notify() {
    let events =
        [TerminalEvent::Bell, TerminalEvent::Other, TerminalEvent::TitleChanged("t".to_string())];
    assert_eq!(
        check_notifications(&events),
        vec![
            Notification {
                title: "Terminal Bell".to_string(),
                body: "Bell triggered in terminal".to_string(),
                urgency: Urgency::Normal,
            },
            Notification {
                title: "Title Changed".to_string(),
                body: "t".to_string(),
                urgency: Urgency::Low,
            },
        ]
    );
}

#[test]
fn the_bar_shows_the_tabs() {
    let mut bar = TabBar::new();
    assert!(bar.entries.is_empty());
    bar.update(&[(TabId(1), "a".to_string()), (TabId(2), "b".to_string())], TabId(2));
    let entry = |id: u64, title: &str, active: bool| TabBarEntry {
        id: TabId(id),
        title: title.to_string(),
        active,
    };
    assert_eq!(bar.entries, vec![entry(1, "a", false), entry(2, "b", true)]);
}

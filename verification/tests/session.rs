//! The session: panes, tabs and workspaces.

use forgetty::ids::{PaneId, Uuid};
use forgetty::pty::size::PtySize;
use forgetty::ratio::{Ratio, MAX_RATIO_BITS, MIN_RATIO_BITS};
use forgetty::session::events::SessionEvent;
use forgetty::session::layout::PaneTreeLayout;
use forgetty::session::manager::{drain_goes_on, home_dir_fallback, DrainResult, SessionManager};

fn test_size() -> PtySize {
    PtySize { rows: 24, cols: 80, pixel_width: 0, pixel_height: 0 }
}

/// A pane in a tab of its own, as a process that could be started gives it.
fn create_pane(session: &mut SessionManager, words: &str) -> PaneId {
    let id = PaneId::new();
    let tab_id = Uuid::new_v4();
    assert!(session.is_fresh_pane(id) && session.is_fresh_tab(tab_id));
    session.create_pane(id, tab_id, Ok(Some(7)), test_size(), None, None).expect(words)
}

fn create_tab(session: &mut SessionManager, workspace: usize, words: &str) -> (PaneId, Uuid) {
    let id = PaneId::new();
    let tab_id = Uuid::new_v4();
    assert!(session.is_fresh_pane(id) && session.is_fresh_tab(tab_id));
    session.create_tab(workspace, id, tab_id, Ok(Some(7)), test_size(), None, None).expect(words)
}

fn split_pane(session: &mut SessionManager, pane: PaneId, direction: &str, words: &str) -> PaneId {
    let id = PaneId::new();
    assert!(session.is_fresh_pane(id));
    session.split_pane(pane, direction, id, Ok(Some(8)), test_size(), None, None).expect(words)
}

fn holds(data: &[u8], part: &[u8]) -> bool {
    data.windows(part.len()).any(|w| w == part)
}

#[test]
fn test_create_pane_write_drain() {
    let mut session = SessionManager::new();
    let id = create_pane(&mut session, "create_pane should succeed");
    session.take_events();

    session.write_pty(id, Ok(())).expect("write_pty should succeed");

    // What the shell writes back comes in as a chunk of output.
    session
        .process_pane_bytes(id, b"echo hello_session_test\r\nhello_session_test\r\n", None, true)
        .expect("process_pane_bytes");
    let mut got_hello = false;
    for event in session.take_events() {
        if let SessionEvent::PtyOutput { pane_id, data } = event {
            got_hello = got_hello || (pane_id == id && holds(&data, b"hello_session_test"));
        }
    }
    assert!(got_hello, "drain task should broadcast 'hello_session_test' via PtyOutput");

    session.close_pane(id).expect("close_pane should succeed");
    assert!(session.pane_info(id).is_none(), "pane_info should return None after close_pane");
}

#[test]
fn test_close_pane_removes_from_registry() {
    let mut session = SessionManager::new();
    let id = create_pane(&mut session, "create pane");
    assert!(session.pane_info(id).is_some());
    session.close_pane(id).expect("close pane");
    assert!(session.pane_info(id).is_none());
}

#[test]
fn test_subscribe_output_receives_events() {
    let mut session = SessionManager::new();
    let id = create_pane(&mut session, "create pane");
    session.write_pty(id, Ok(())).expect("write_pty");
    session.process_pane_bytes(id, b"echo subscribe_test\r\n", None, true).unwrap();
    let got_event =
        session.take_events().iter().any(|e| matches!(e, SessionEvent::PtyOutput { .. }));
    assert!(got_event, "subscribe_output should receive PtyOutput event");
    session.close_pane(id).ok();
}

#[test]
fn test_no_gtk_required() {
    let session = SessionManager::new();
    assert!(session.list_panes().is_empty());
}

#[test]
fn test_create_tab_layout_and_registry() {
    let mut session = SessionManager::new();
    let (pane_id, tab_id) = create_tab(&mut session, 0, "create_tab should succeed");

    let layout = session.layout();
    let tabs = &layout.workspaces[0].tabs;
    // The default workspace starts empty; create_tab appends one tab.
    assert_eq!(tabs.len(), 1, "expected 1 tab after create_tab");
    assert_eq!(tabs[0].id, tab_id, "tab id must match returned tab_id");
    assert!(
        matches!(&tabs[0].pane_tree, PaneTreeLayout::Leaf { pane_id: pid } if *pid == pane_id),
        "tab pane_tree must be Leaf(pane_id)"
    );
    assert!(session.pane_info(pane_id).is_some(), "pane_info should return Some after create_tab");

    session.close_tab(tab_id).ok();
}

#[test]
fn test_create_tab_appends() {
    let mut session = SessionManager::new();
    let (_, tab1) = create_tab(&mut session, 0, "tab 1");
    let (pane2, tab2) = create_tab(&mut session, 0, "tab 2");

    let layout = session.layout();
    let tabs = &layout.workspaces[0].tabs;
    assert_eq!(tabs.len(), 2);
    assert_eq!(tabs[0].id, tab1);
    assert_eq!(tabs[1].id, tab2);
    assert!(matches!(&tabs[1].pane_tree, PaneTreeLayout::Leaf { pane_id } if *pane_id == pane2));

    session.close_tab(tab1).ok();
    session.close_tab(tab2).ok();
}

#[test]
fn test_create_tab_workspace_out_of_bounds() {
    let mut session = SessionManager::new();
    let before = session.list_panes().len();
    assert!(session.check_workspace(99).is_err());
    assert!(session.check_workspace(0).is_ok());
    let result = session.create_tab(
        99,
        PaneId::new(),
        Uuid::new_v4(),
        Ok(Some(7)),
        test_size(),
        None,
        None,
    );
    assert!(result.is_err(), "should return Err for workspace 99");
    assert_eq!(session.list_panes().len(), before, "no PTY should be spawned on failure");

    let layout = session.layout();
    assert_eq!(layout.workspaces[0].tabs.len(), 0, "layout should be unchanged");
}

#[test]
fn test_split_pane_horizontal() {
    let mut session = SessionManager::new();
    let (pane_a, tab_id) = create_tab(&mut session, 0, "create_tab");
    let pane_b = split_pane(&mut session, pane_a, "horizontal", "split_pane");

    let layout = session.layout();
    let tab = &layout.workspaces[0].tabs[0];
    assert!(
        matches!(
            &tab.pane_tree,
            PaneTreeLayout::Split { direction, ratio, first, second }
            if direction == "horizontal"
            && (f32::from_bits(ratio.bits) - 0.5).abs() < 1e-6
            && matches!(first.as_ref(), PaneTreeLayout::Leaf { pane_id } if *pane_id == pane_a)
            && matches!(second.as_ref(), PaneTreeLayout::Leaf { pane_id } if *pane_id == pane_b)
        ),
        "pane_tree must be Split {{ horizontal, 0.5, Leaf(A), Leaf(B) }}"
    );

    assert!(session.pane_info(pane_a).is_some(), "pane A must still exist");
    assert!(session.pane_info(pane_b).is_some(), "pane B must be registered");

    session.close_tab(tab_id).ok();
}

#[test]
fn test_split_pane_vertical() {
    let mut session = SessionManager::new();
    let (pane_a, tab_id) = create_tab(&mut session, 0, "create_tab");
    let pane_b = split_pane(&mut session, pane_a, "vertical", "split_pane");

    let layout = session.layout();
    let tab = &layout.workspaces[0].tabs[0];
    assert!(
        matches!(
            &tab.pane_tree,
            PaneTreeLayout::Split { direction, .. }
            if direction == "vertical"
        ),
        "direction must be 'vertical'"
    );
    assert!(session.pane_info(pane_b).is_some());

    session.close_tab(tab_id).ok();
}

#[test]
fn test_split_pane_nested() {
    let mut session = SessionManager::new();
    let (pane_a, tab_id) = create_tab(&mut session, 0, "create_tab");
    let pane_b = split_pane(&mut session, pane_a, "horizontal", "first split");
    // Then pane B, the right leaf.
    let pane_c = split_pane(&mut session, pane_b, "horizontal", "second split");

    let layout = session.layout();
    let tab = &layout.workspaces[0].tabs[0];

    // Split { first: Leaf(A), second: Split { first: Leaf(B), second: Leaf(C) } }
    let PaneTreeLayout::Split { first, second, .. } = &tab.pane_tree else {
        panic!("expected top-level Split, got {:?}", tab.pane_tree);
    };
    assert!(
        matches!(first.as_ref(), PaneTreeLayout::Leaf { pane_id } if *pane_id == pane_a),
        "first leaf must still be A"
    );
    let PaneTreeLayout::Split { first: inner_first, second: inner_second, .. } = second.as_ref()
    else {
        panic!("second must be a nested Split");
    };
    assert!(matches!(inner_first.as_ref(), PaneTreeLayout::Leaf { pane_id } if *pane_id == pane_b));
    assert!(
        matches!(inner_second.as_ref(), PaneTreeLayout::Leaf { pane_id } if *pane_id == pane_c)
    );
    assert!(session.pane_info(pane_c).is_some());

    session.close_tab(tab_id).ok();
}

#[test]
fn test_split_pane_unknown_pane_id() {
    let mut session = SessionManager::new();
    let (_pane_a, tab_id) = create_tab(&mut session, 0, "create_tab");
    let unknown = PaneId::new();
    let before_count = session.list_panes().len();

    let result = session.split_pane(
        unknown,
        "horizontal",
        PaneId::new(),
        Ok(Some(8)),
        test_size(),
        None,
        None,
    );
    assert!(result.is_err(), "should return Err for unknown pane");
    assert_eq!(
        session.list_panes().len(),
        before_count,
        "no new PTY should be registered on failure"
    );

    session.close_tab(tab_id).ok();
}

#[test]
fn test_split_pane_with_ratio() {
    let mut session = SessionManager::new();
    let (pane_a, tab_id) = create_tab(&mut session, 0, "create_tab");
    let pane_b = session
        .split_pane_with_ratio(
            pane_a,
            "horizontal",
            Ratio { bits: 0.3f32.to_bits() },
            PaneId::new(),
            Ok(Some(8)),
            test_size(),
            None,
            None,
        )
        .expect("split_pane_with_ratio");

    let layout = session.layout();
    let tab = &layout.workspaces[0].tabs[0];
    assert!(
        matches!(
            &tab.pane_tree,
            PaneTreeLayout::Split { direction, ratio, first, second }
            if direction == "horizontal"
            && (f32::from_bits(ratio.bits) - 0.3).abs() < 1e-6
            && matches!(first.as_ref(), PaneTreeLayout::Leaf { pane_id } if *pane_id == pane_a)
            && matches!(second.as_ref(), PaneTreeLayout::Leaf { pane_id } if *pane_id == pane_b)
        ),
        "pane_tree must be Split {{ horizontal, 0.3, Leaf(A), Leaf(B) }}"
    );

    assert!(session.pane_info(pane_b).is_some());
    session.close_tab(tab_id).ok();
}

#[test]
fn test_close_tab_single_pane() {
    let mut session = SessionManager::new();
    let (pane_id, tab_id) = create_tab(&mut session, 0, "create_tab");
    assert!(session.pane_info(pane_id).is_some());

    session.close_tab(tab_id).expect("close_tab should succeed");

    assert!(session.pane_info(pane_id).is_none(), "pane_info should be None after close_tab");
    assert!(
        !session.list_panes().contains(&pane_id),
        "list_panes should not contain closed pane"
    );

    let layout = session.layout();
    assert_eq!(layout.workspaces[0].tabs.len(), 0, "tab list should be empty");
}

#[test]
fn test_close_tab_split_pane() {
    let mut session = SessionManager::new();
    let (pane_a, tab_id) = create_tab(&mut session, 0, "create_tab");
    let pane_b = split_pane(&mut session, pane_a, "horizontal", "split_pane");

    session.close_tab(tab_id).expect("close_tab should succeed");

    assert!(session.pane_info(pane_a).is_none(), "pane A should be None after close_tab");
    assert!(session.pane_info(pane_b).is_none(), "pane B should be None after close_tab");
    assert!(!session.list_panes().contains(&pane_a));
    assert!(!session.list_panes().contains(&pane_b));
}

#[test]
fn test_close_tab_clamps_active_tab() {
    let mut session = SessionManager::new();
    let (_, tab0) = create_tab(&mut session, 0, "tab 0");
    let (_, tab1) = create_tab(&mut session, 0, "tab 1");
    let (_, tab2) = create_tab(&mut session, 0, "tab 2");

    // The last tab becomes active.
    session.set_active_tab(0, 2).expect("set_active_tab");

    // It goes, and the one before it becomes active.
    session.close_tab(tab2).expect("close_tab tab2");
    let layout = session.layout();
    assert_eq!(layout.workspaces[0].active_tab, 1, "active_tab should be clamped to 1");

    // The first goes; the active index stays one of a tab.
    session.close_tab(tab0).expect("close_tab tab0");
    let layout = session.layout();
    assert!(
        layout.workspaces[0].active_tab < layout.workspaces[0].tabs.len()
            || layout.workspaces[0].tabs.is_empty(),
        "active_tab must be valid"
    );

    session.close_tab(tab1).ok();
}

#[test]
fn test_close_tab_unknown_tab_id() {
    let mut session = SessionManager::new();
    let result = session.close_tab(Uuid::new_v4());
    assert!(result.is_err(), "should return Err for unknown tab_id");
    let layout = session.layout();
    assert_eq!(layout.workspaces[0].tabs.len(), 0, "layout should be unchanged");
}

fn tab_ids(session: &SessionManager) -> Vec<Uuid> {
    session.layout().workspaces[0].tabs.iter().map(|t| t.id).collect()
}

#[test]
fn test_move_tab_reorders() {
    let mut session = SessionManager::new();
    let (_, tab_a) = create_tab(&mut session, 0, "tab A");
    let (_, tab_b) = create_tab(&mut session, 0, "tab B");
    let (_, tab_c) = create_tab(&mut session, 0, "tab C");

    // [A, B, C]: C goes to index 0.
    session.move_tab(tab_c, 0).expect("move_tab");

    assert_eq!(tab_ids(&session), vec![tab_c, tab_a, tab_b], "tabs should be [C, A, B]");

    session.close_tab(tab_a).ok();
    session.close_tab(tab_b).ok();
    session.close_tab(tab_c).ok();
}

#[test]
fn test_move_tab_clamps() {
    let mut session = SessionManager::new();
    let (_, tab_a) = create_tab(&mut session, 0, "tab A");
    let (_, tab_b) = create_tab(&mut session, 0, "tab B");

    // Far beyond the end means last.
    session.move_tab(tab_a, 9999).expect("move_tab clamped");
    assert_eq!(tab_ids(&session), vec![tab_b, tab_a], "tab A should be last after clamped move");

    // To the place where it stands.
    session.move_tab(tab_a, 1).expect("move_tab no-op");
    assert_eq!(tab_ids(&session), vec![tab_b, tab_a], "order unchanged after no-op move");

    session.close_tab(tab_a).ok();
    session.close_tab(tab_b).ok();
}

#[test]
fn test_move_tab_unknown_tab_id() {
    let mut session = SessionManager::new();
    let result = session.move_tab(Uuid::new_v4(), 0);
    assert!(result.is_err(), "should return Err for unknown tab_id");
}

#[test]
fn test_set_active_tab_updates() {
    let mut session = SessionManager::new();
    let (_, _tab0) = create_tab(&mut session, 0, "tab 0");
    let (_, _tab1) = create_tab(&mut session, 0, "tab 1");
    let (_, _tab2) = create_tab(&mut session, 0, "tab 2");

    session.set_active_tab(0, 2).expect("set_active_tab(0, 2)");
    assert_eq!(session.layout().workspaces[0].active_tab, 2);

    session.set_active_tab(0, 0).expect("set_active_tab(0, 0)");
    assert_eq!(session.layout().workspaces[0].active_tab, 0);
}

#[test]
fn test_set_active_tab_out_of_bounds() {
    let mut session = SessionManager::new();
    let (_, tab0) = create_tab(&mut session, 0, "tab 0");

    let err = session.set_active_tab(0, 999);
    assert!(err.is_err(), "should err on tab_idx out of bounds");

    let err2 = session.set_active_tab(99, 0);
    assert!(err2.is_err(), "should err on workspace_idx out of bounds");

    session.close_tab(tab0).ok();
}

#[test]
fn test_set_active_workspace_updates_and_is_idempotent() {
    let mut session = SessionManager::new();
    let (_, _) = session.create_workspace("Second");
    let (_, _) = session.create_workspace("Third");
    session.take_events();

    session.set_active_workspace(1).expect("set 1");
    assert_eq!(session.layout().active_workspace, 1);
    let events = session.take_events();
    assert_eq!(events, vec![SessionEvent::ActiveWorkspaceChanged { workspace_idx: 1 }], "first event");

    session.set_active_workspace(1).expect("idempotent");
    assert!(session.take_events().is_empty(), "no event on identical re-set");

    session.set_active_workspace(2).expect("set 2");
    assert_eq!(session.layout().active_workspace, 2);
    let events = session.take_events();
    assert_eq!(
        events,
        vec![SessionEvent::ActiveWorkspaceChanged { workspace_idx: 2 }],
        "second event"
    );
}

#[test]
fn test_set_active_workspace_out_of_bounds() {
    let mut session = SessionManager::new();
    assert_eq!(session.layout().workspaces.len(), 1);

    let err = session.set_active_workspace(1);
    assert!(err.is_err(), "should err on workspace_idx >= len");
    assert_eq!(session.layout().active_workspace, 0, "failed call must not mutate");

    let err2 = session.set_active_workspace(999);
    assert!(err2.is_err(), "should err on gross out-of-bounds");
}

#[test]
fn test_create_workspace() {
    let mut session = SessionManager::new();
    assert_eq!(session.layout().workspaces.len(), 1);

    let (ws_id, ws_idx) = session.create_workspace("Range");

    let layout = session.layout();
    assert_eq!(layout.workspaces.len(), 2, "expected 2 workspaces");
    assert_eq!(ws_idx, 1, "returned workspace_idx should be 1");
    assert_eq!(layout.workspaces[1].id, ws_id, "workspace id must match");
    assert_eq!(layout.workspaces[1].name, "Range");
    assert_eq!(layout.workspaces[1].tabs.len(), 0, "new workspace starts empty");

    let (pane_id, _tab_id) = create_tab(&mut session, ws_idx, "create_tab on new workspace");
    assert!(session.pane_info(pane_id).is_some());
    assert_eq!(session.layout().workspaces[1].tabs.len(), 1);

    session.close_pane(pane_id).ok();
}

#[test]
fn test_rename_workspace_updates_name() {
    let mut session = SessionManager::new();
    assert_eq!(session.layout().workspaces[0].name, "Default");

    session.rename_workspace(0, "Custom").expect("rename should succeed");
    assert_eq!(
        session.layout().workspaces[0].name,
        "Custom",
        "layout must reflect the new name"
    );
}

#[test]
fn test_rename_workspace_out_of_bounds_errors() {
    let mut session = SessionManager::new();
    // There is one workspace.
    let result = session.rename_workspace(5, "Nope");
    assert!(result.is_err(), "rename with out-of-range idx must return Err");
    assert_eq!(session.layout().workspaces[0].name, "Default");
}

#[test]
fn test_rename_workspace_emits_event() {
    let mut session = SessionManager::new();
    let original_id = session.layout().workspaces[0].id;

    session.rename_workspace(0, "Renamed").expect("rename should succeed");

    let mut got_event = false;
    for event in session.take_events() {
        if let SessionEvent::WorkspaceRenamed { workspace_idx, workspace_id, name } = event {
            assert_eq!(workspace_idx, 0);
            assert_eq!(workspace_id, original_id);
            assert_eq!(name, "Renamed");
            got_event = true;
        }
    }
    assert!(got_event, "WorkspaceRenamed event must be broadcast on rename");
}

#[test]
fn test_rename_workspace_idempotent() {
    let mut session = SessionManager::new();
    session.rename_workspace(0, "Default").expect("rename idempotent call should succeed");
    for event in session.take_events() {
        if let SessionEvent::WorkspaceRenamed { .. } = event {
            panic!("no-op rename must not emit WorkspaceRenamed");
        }
    }
    assert_eq!(session.layout().workspaces[0].name, "Default");
}

#[test]
fn test_subscribe_with_snapshot_no_wrong_skip() {
    let mut session = SessionManager::new();
    let pane_id = create_pane(&mut session, "create_pane should succeed");
    session.create_byte_log_for(pane_id, 0, &[]);

    let pre = b"PRE_SNAPSHOT_PAYLOAD_XYZ";
    session.process_pane_bytes(pane_id, pre, None, true).expect("process_pane_bytes (pre)");

    // From here on the subscriber sees what comes: what was announced before
    // is not for it.
    session.take_events();
    let (replay_bytes, hwm) = session.subscribe_with_snapshot(pane_id);

    assert!(
        holds(&replay_bytes, pre),
        "snapshot must contain pre-snapshot payload; got {} bytes, hwm={hwm}",
        replay_bytes.len()
    );
    assert!(hwm >= replay_bytes.len() as u64);

    let post = b"POST_SNAPSHOT_UNIQUE_MARKER_123";
    assert!(
        !holds(&replay_bytes, post),
        "post-snapshot payload must not be in snapshot (test setup sanity)"
    );
    session.process_pane_bytes(pane_id, post, None, true).expect("process_pane_bytes (post)");

    let mut saw_post = false;
    let mut saw_pre_on_rx = false;
    for event in session.take_events() {
        if let SessionEvent::PtyOutput { pane_id: evt_id, data } = event {
            assert_eq!(evt_id, pane_id);
            saw_post = saw_post || holds(&data, post);
            saw_pre_on_rx = saw_pre_on_rx || holds(&data, pre);
        }
    }
    assert!(
        !saw_pre_on_rx,
        "receiver must not re-deliver pre-snapshot payload (would imply overlap)"
    );
    assert!(
        saw_post,
        "receiver must deliver post-snapshot payload"
    );

    session.close_pane(pane_id).ok();
}

#[test]
fn closing_undoes_a_split() {
    let mut session = SessionManager::new();
    let (a, _) = create_tab(&mut session, 0, "tab");
    let before = session.layout();
    let b = split_pane(&mut session, a, "vertical", "split");
    assert_ne!(session.layout(), before);
    session.close_pane(b).unwrap();
    session.promote_sibling(b);
    assert_eq!(session.layout(), before);
}

#[test]
fn a_workspace_takes_its_panes_along() {
    let mut session = SessionManager::new();
    let (keep, _) = create_tab(&mut session, 0, "keep");
    let (_, idx) = session.create_workspace("Gone");
    let (a, _) = create_tab(&mut session, idx, "a");
    let b = split_pane(&mut session, a, "vertical", "b");
    session.take_events();
    let gone = session.layout().workspaces[idx].id;
    session.delete_workspace(idx).unwrap();
    assert_eq!(session.list_panes(), vec![keep]);
    assert!(session.pane_info(b).is_none());
    let events = session.take_events();
    assert_eq!(
        events.last(),
        Some(&SessionEvent::WorkspaceDeleted { workspace_idx: idx, workspace_id: gone })
    );
    assert!(events.contains(&SessionEvent::PaneClosed { pane_id: a }));
    assert!(events.contains(&SessionEvent::PaneClosed { pane_id: b }));
    // The last workspace stays.
    let err = session.delete_workspace(0).unwrap_err();
    assert!(err.message().contains("last remaining workspace"));
}

#[test]
fn a_process_that_did_not_start_leaves_no_trace() {
    let mut session = SessionManager::new();
    let err = session
        .create_pane(
            PaneId::new(),
            Uuid::new_v4(),
            Err("no such program".to_string()),
            test_size(),
            None,
            None,
        )
        .unwrap_err();
    assert!(err.message().contains("no such program"));
    assert!(session.list_panes().is_empty());
    assert!(session.take_events().is_empty());
    assert_eq!(session.layout().workspaces[0].tabs.len(), 0);
}

#[test]
fn panes_start_in_a_directory() {
    assert_eq!(home_dir_fallback(None), "/");
    assert_eq!(home_dir_fallback(Some("/home/u".to_string())), "/home/u");
    let mut session = SessionManager::new();
    let id = PaneId::new();
    session
        .create_pane(
            id,
            Uuid::new_v4(),
            Ok(None),
            PtySize { rows: 5, cols: 6, pixel_width: 0, pixel_height: 0 },
            None,
            Some("/home/u".to_string()),
        )
        .unwrap();
    let info = session.pane_info(id).unwrap();
    assert_eq!((info.rows, info.cols), (5, 6));
    assert_eq!(info.cwd, "/home/u");
    assert_eq!(info.pid, None);
    session.set_pane_cwd(id, "/tmp".to_string());
    assert_eq!(session.pane_info(id).unwrap().cwd, "/tmp");
    session.process_pane_bytes(id, b"x", Some("/var".to_string()), true).unwrap();
    assert_eq!(session.pane_info(id).unwrap().cwd, "/var");
}

#[test]
fn ratios_are_clamped() {
    let mut session = SessionManager::new();
    let (a, _) = create_tab(&mut session, 0, "tab");
    let _b = split_pane(&mut session, a, "vertical", "split");
    let shown = |session: &SessionManager| -> f32 {
        match &session.layout().workspaces[0].tabs[0].pane_tree {
            PaneTreeLayout::Split { ratio, .. } => f32::from_bits(ratio.bits),
            other => panic!("expected a split, got {:?}", other),
        }
    };
    for (asked, given) in [(0.25f32, 0.25f32), (0.01, 0.05), (-3.0, 0.05), (0.99, 0.95), (7.5, 0.95)] {
        session.update_split_ratios(&[(a, Ratio { bits: asked.to_bits() })]);
        assert_eq!(shown(&session), given);
    }
    assert_eq!(f32::from_bits(MIN_RATIO_BITS), 0.05);
    assert_eq!(f32::from_bits(MAX_RATIO_BITS), 0.95);
    session.update_split_ratios(&[(PaneId::new(), Ratio { bits: 0.5f32.to_bits() })]);
    assert_eq!(shown(&session), 0.95);
}

#[test]
fn a_resize_counts_when_it_went_well() {
    let mut session = SessionManager::new();
    let id = create_pane(&mut session, "pane");
    let wide = PtySize { rows: 50, cols: 132, pixel_width: 0, pixel_height: 0 };
    assert!(session.resize_pane(id, wide, Err("ioctl".to_string())).is_err());
    assert_eq!(session.pane_info(id).unwrap().cols, 80);
    session.resize_pane(id, wide, Ok(())).unwrap();
    let info = session.pane_info(id).unwrap();
    assert_eq!((info.rows, info.cols), (50, 132));
    let err = session.resize_pane(PaneId::new(), wide, Ok(())).unwrap_err();
    assert!(err.message().contains("not found"));
}

#[test]
fn an_ended_process_ends_the_drain() {
    let mut session = SessionManager::new();
    let id = create_pane(&mut session, "pane");
    let r = session.process_pane_bytes(id, b"bye", None, false);
    assert_eq!(r, Ok(DrainResult { pty_exited: true }));
    assert!(!drain_goes_on(&r));
    let r = session.process_pane_bytes(id, b"hi", None, true);
    assert!(drain_goes_on(&r));
    let r = session.process_pane_bytes(PaneId::new(), b"hi", None, false);
    assert!(r.is_err());
    assert!(drain_goes_on(&r));
}

#[test]
fn an_interrupt_goes_to_a_foreign_group() {
    let mut session = SessionManager::new();
    let id = create_pane(&mut session, "pane");
    assert_eq!(session.send_sigint(id, Some(10), 20), Some(10));
    assert_eq!(session.send_sigint(id, Some(20), 20), None);
    assert_eq!(session.send_sigint(id, Some(0), 20), None);
    assert_eq!(session.send_sigint(id, None, 20), None);
    assert_eq!(session.send_sigint(PaneId::new(), Some(10), 20), None);
}

#[test]
fn byte_logs_follow_the_configuration() {
    let mut session = SessionManager::new();
    session.set_byte_log_config(1, 2);
    assert_eq!(session.byte_log_sizes(), (1024, 2 * 1024 * 1024));
    let id = create_pane(&mut session, "pane");
    assert_eq!(session.get_ring_snapshot(id), None);
    assert_eq!(session.subscribe_with_snapshot(id), (Vec::new(), 0));
    session.create_byte_log_for(id, 2, b"ab");
    session.process_pane_bytes(id, b"cd", None, true).unwrap();
    assert_eq!(session.get_ring_snapshot(id), Some((b"abcd".to_vec(), 4)));
    session.close_pane_byte_log(id);
    assert_eq!(session.get_ring_snapshot(id), None);
}

#[test]
fn the_active_tab_follows_a_move() {
    let mut session = SessionManager::new();
    let (_, a) = create_tab(&mut session, 0, "a");
    let (_, b) = create_tab(&mut session, 0, "b");
    let (_, c) = create_tab(&mut session, 0, "c");
    session.set_active_tab(0, 1).unwrap();
    session.take_events();
    session.move_tab(a, 2).unwrap();
    assert_eq!(tab_ids(&session), vec![b, c, a]);
    assert_eq!(session.layout().workspaces[0].active_tab, 0);
    assert_eq!(
        session.take_events(),
        vec![SessionEvent::TabMoved { workspace_idx: 0, tab_id: a, new_index: 2 }]
    );
}

#[test]
fn pins_are_kept() {
    let mut session = SessionManager::new();
    assert!(!session.is_pinned());
    session.set_pinned(true);
    assert!(session.is_pinned());
    let id = create_pane(&mut session, "pane");
    assert_eq!(session.kill_all(), vec![id]);
    assert_eq!(session.list_panes(), vec![id]);
}

#[test]
fn a_tab_id_names_one_tab() {
    let mut session = SessionManager::new();
    let (_, kept) = create_tab(&mut session, 0, "first tab");
    let (_, closed) = create_tab(&mut session, 0, "second tab");
    assert!(!session.is_fresh_tab(kept) && !session.is_fresh_tab(closed));
    assert_eq!(session.layout().tab_location(kept), Some((0, 0)));
    assert_eq!(session.layout().tab_location(closed), Some((0, 1)));
    session.close_tab(closed).expect("close_tab");
    assert!(session.is_fresh_tab(closed));
    assert_eq!(session.layout().tab_location(kept), Some((0, 0)));
}

#[test]
fn the_mark_of_a_snapshot_covers_its_bytes() {
    let mut session = SessionManager::new();
    let id = create_pane(&mut session, "create_pane");
    assert_eq!(session.subscribe_with_snapshot(id), (Vec::new(), 0));
    session.set_byte_log_config(1, 1);
    session.create_byte_log_for(id, 3000, &[7u8; 1024]);
    let (bytes, mark) = session.subscribe_with_snapshot(id);
    assert_eq!((bytes.len(), mark), (1024, 3000));
    session.process_pane_bytes(id, &[8u8; 10], None, true).expect("process_pane_bytes");
    let (bytes, mark) = session.subscribe_with_snapshot(id);
    assert_eq!((bytes.len(), mark), (1024, 3010));
    assert_eq!(bytes[1013..1015], [7, 8]);
}

//! Saving a session.

use forgetty::ids::{PaneId, Uuid};
use forgetty::pty::size::PtySize;
use forgetty::ratio::Ratio;
use forgetty::session::layout::PaneTreeLayout;
use forgetty::session::manager::SessionManager;
use forgetty::session::workspace::{
    build_workspace_state, PaneTreeState, TabLayoutEntry, WorkspaceLayout, WorkspaceLayoutEntry,
};

#[test]
fn a_session_is_saved_as_it_is_laid_out() {
    let mut sm = SessionManager::new();
    let size = PtySize::default();
    let a = PaneId::new();
    sm.create_tab(0, a, Uuid::new_v4(), Ok(Some(1)), size, Some("/a".to_string()), None).unwrap();
    let b = PaneId::new();
    sm.split_pane(a, "vertical", b, Ok(Some(2)), size, Some("/b".to_string()), None).unwrap();
    sm.create_workspace("Second");
    sm.set_pinned(true);
    let state = sm.snapshot_to_workspace_state(&None);
    assert!(state.pinned);
    assert_eq!(state.workspaces.len(), 2);
    assert_eq!(state.workspaces[1].name, "Second");
    assert_eq!(state.workspaces[0].id, sm.layout().workspaces[0].id);
    assert_eq!(state.workspaces[0].tabs.len(), 1);
    let shown = format!("{:?}", state.workspaces[0].tabs[0].pane_tree);
    assert!(shown.contains("/a") && shown.contains("/b") && shown.contains("vertical"), "{}", shown);
    assert!(!matches!(state.workspaces[0].tabs[0].pane_tree, PaneTreeState::Leaf { .. }));
}

#[test]
fn a_described_layout_is_saved_with_the_directories_of_its_panes() {
    let mut sm = SessionManager::new();
    let a = PaneId::new();
    sm.create_tab(
        0,
        a,
        Uuid::new_v4(),
        Ok(Some(1)),
        PtySize::default(),
        Some("/srv".to_string()),
        None,
    )
    .unwrap();
    let gone = PaneId::new();
    let id = Uuid::new_v4();
    let tab = |title: &str, pane_id: PaneId| TabLayoutEntry {
        title: title.to_string(),
        pane_tree: PaneTreeLayout::Leaf { pane_id },
    };
    let layout = WorkspaceLayout {
        workspaces: vec![WorkspaceLayoutEntry {
            id,
            name: "Work".to_string(),
            tabs: vec![tab("one", a), tab("two", gone)],
            active_tab: 1,
        }],
        active_workspace: 0,
        window_width: Some(800),
        window_height: Some(600),
    };
    let state = sm.snapshot_workspace(&layout, &Some("/home/me".to_string()));
    assert_eq!((state.window_width, state.window_height), (Some(800), Some(600)));
    assert_eq!(state.workspaces[0].id, id);
    assert_eq!(state.workspaces[0].active_tab, 1);
    let cwds: Vec<String> = state.workspaces[0]
        .tabs
        .iter()
        .map(|t| match &t.pane_tree {
            PaneTreeState::Leaf { cwd, .. } => cwd.clone(),
            other => panic!("expected a leaf, got {:?}", other),
        })
        .collect();
    assert_eq!(cwds, vec!["/srv".to_string(), "/home/me".to_string()]);
}

#[test]
fn a_described_layout_is_built_with_the_directories_given() {
    let (a, b) = (PaneId::new(), PaneId::new());
    let tree = PaneTreeLayout::Split {
        direction: "horizontal".to_string(),
        ratio: Ratio { bits: 0x3f00_0000 },
        first: Box::new(PaneTreeLayout::Leaf { pane_id: a }),
        second: Box::new(PaneTreeLayout::Leaf { pane_id: b }),
    };
    let layout = WorkspaceLayout {
        workspaces: vec![WorkspaceLayoutEntry {
            id: Uuid { value: 5 },
            name: "Work".to_string(),
            tabs: vec![TabLayoutEntry { title: "one".to_string(), pane_tree: tree }],
            active_tab: 0,
        }],
        active_workspace: 0,
        window_width: None,
        window_height: Some(600),
    };
    let state = build_workspace_state(&layout, |id: PaneId| {
        if id == a {
            "/a".to_string()
        } else {
            "/b".to_string()
        }
    });
    assert_eq!(state.version, 1);
    assert_eq!((state.window_width, state.window_height), (None, Some(600)));
    assert_eq!(
        state.workspaces[0].tabs[0].pane_tree,
        PaneTreeState::Split {
            direction: "horizontal".to_string(),
            ratio: Ratio { bits: 0x3f00_0000 },
            first: Box::new(PaneTreeState::Leaf { cwd: "/a".to_string(), pane_id: None }),
            second: Box::new(PaneTreeState::Leaf { cwd: "/b".to_string(), pane_id: None }),
        }
    );
}

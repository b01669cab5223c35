//! The layout of a session.

use forgetty::ids::{PaneId, Uuid};
use forgetty::pty::size::PtySize;
use forgetty::ratio::Ratio;
use forgetty::session::layout::{
    collect_pane_ids, find_tab_for_pane, leftmost_leaf_id, remove_leaf, replace_leaf,
    replace_leaf_with_ratio, tree_contains_pane, update_ratio_for_pane, PaneTreeLayout,
    SessionLayout, SessionTab,
};
use forgetty::session::manager::SessionManager;

#[test]
fn test_session_layout_default() {
    let layout = SessionLayout::new_default();
    assert_eq!(layout.workspaces.len(), 1);
    assert_eq!(layout.workspaces[0].name, "Default");
    assert_eq!(layout.workspaces[0].tabs.len(), 0);
    assert_eq!(layout.active_workspace, 0);
    assert_eq!(layout.workspaces[0].active_tab, 0);
}

/// The pane of a tab that holds just one.
fn leaf_id(tab: &SessionTab) -> PaneId {
    match &tab.pane_tree {
        PaneTreeLayout::Leaf { pane_id } => *pane_id,
        other => panic!("expected Leaf, got {:?}", other),
    }
}

fn create(session: &mut SessionManager, words: &str) -> PaneId {
    let size = PtySize { rows: 24, cols: 80, pixel_width: 0, pixel_height: 0 };
    let id = PaneId(Uuid::new_v4());
    assert!(session.is_fresh_pane(id));
    session.create_pane(id, Uuid::new_v4(), Ok(Some(1)), size, None, None).expect(words)
}

#[test]
fn test_layout_create_close_sequence() {
    let mut session = SessionManager::new();

    let id1 = create(&mut session, "create pane 1");
    let id2 = create(&mut session, "create pane 2");
    let id3 = create(&mut session, "create pane 3");

    {
        let layout = session.layout();
        let tabs = &layout.workspaces[0].tabs;
        assert_eq!(tabs.len(), 3, "expected 3 tabs after 3 create_pane calls");
        assert_eq!(leaf_id(&tabs[0]), id1, "tabs[0] should be pane 1");
        assert_eq!(leaf_id(&tabs[1]), id2, "tabs[1] should be pane 2");
        assert_eq!(leaf_id(&tabs[2]), id3, "tabs[2] should be pane 3");
    }

    // The middle pane goes.
    session.close_pane(id2).expect("close pane 2");

    {
        let layout = session.layout();
        let tabs = &layout.workspaces[0].tabs;
        assert_eq!(tabs.len(), 2, "expected 2 tabs after closing pane 2");
        assert_eq!(leaf_id(&tabs[0]), id1, "tabs[0] should still be pane 1");
        assert_eq!(leaf_id(&tabs[1]), id3, "tabs[1] should now be pane 3");
    }

    let id4 = create(&mut session, "create pane 4");

    {
        let layout = session.layout();
        let tabs = &layout.workspaces[0].tabs;
        assert_eq!(tabs.len(), 3, "expected 3 tabs after creating pane 4");
        assert_eq!(leaf_id(&tabs[0]), id1, "tabs[0] should be pane 1");
        assert_eq!(leaf_id(&tabs[1]), id3, "tabs[1] should be pane 3");
        assert_eq!(leaf_id(&tabs[2]), id4, "tabs[2] should be pane 4 (appended last)");
    }

    session.close_pane(id1).ok();
    session.close_pane(id3).ok();
    session.close_pane(id4).ok();
}

fn pane(n: u128) -> PaneId {
    PaneId(Uuid { value: n })
}

fn leaf(n: u128) -> PaneTreeLayout {
    PaneTreeLayout::Leaf { pane_id: pane(n) }
}

fn split(direction: &str, ratio: f32, first: PaneTreeLayout, second: PaneTreeLayout) -> PaneTreeLayout {
    PaneTreeLayout::Split {
        direction: direction.to_string(),
        ratio: Ratio { bits: ratio.to_bits() },
        first: Box::new(first),
        second: Box::new(second),
    }
}

#[test]
fn a_leaf_becomes_a_split() {
    let mut tree = split("horizontal", 0.5, leaf(1), leaf(2));
    assert!(replace_leaf(&mut tree, pane(2), pane(3), "vertical"));
    assert_eq!(
        tree,
        split("horizontal", 0.5, leaf(1), split("vertical", 0.5, leaf(2), leaf(3)))
    );
    let third = Ratio { bits: 0.3f32.to_bits() };
    assert!(replace_leaf_with_ratio(&mut tree, pane(1), pane(4), "vertical", third));
    assert_eq!(
        tree,
        split(
            "horizontal",
            0.5,
            split("vertical", 0.3, leaf(1), leaf(4)),
            split("vertical", 0.5, leaf(2), leaf(3)),
        )
    );
    let before = tree.copy();
    assert!(!replace_leaf(&mut tree, pane(9), pane(5), "vertical"));
    assert_eq!(tree, before);
}

#[test]
fn a_removed_leaf_leaves_its_sibling() {
    let tree = split("horizontal", 0.5, leaf(1), split("vertical", 0.25, leaf(2), leaf(3)));
    assert_eq!(
        remove_leaf(tree.copy(), pane(2)),
        Some(split("horizontal", 0.5, leaf(1), leaf(3)))
    );
    assert_eq!(remove_leaf(tree.copy(), pane(1)), Some(split("vertical", 0.25, leaf(2), leaf(3))));
    assert_eq!(remove_leaf(tree.copy(), pane(9)), Some(tree));
    assert_eq!(remove_leaf(leaf(1), pane(1)), None);
}

#[test]
fn panes_of_a_tree_come_in_order() {
    let tree = split("horizontal", 0.5, split("vertical", 0.5, leaf(3), leaf(1)), leaf(2));
    let mut ids = vec![pane(7)];
    collect_pane_ids(&tree, &mut ids);
    assert_eq!(ids, vec![pane(7), pane(3), pane(1), pane(2)]);
    assert_eq!(leftmost_leaf_id(&tree), pane(3));
    assert!(tree_contains_pane(&tree, pane(2)));
    assert!(!tree_contains_pane(&tree, pane(7)));
}

#[test]
fn the_split_whose_first_leaf_is_named_gets_the_ratio() {
    let mut tree = split("horizontal", 0.5, leaf(1), split("vertical", 0.5, leaf(2), leaf(3)));
    let r = Ratio { bits: 0.75f32.to_bits() };
    assert!(update_ratio_for_pane(&mut tree, pane(2), r));
    assert_eq!(
        tree,
        split("horizontal", 0.5, leaf(1), split("vertical", 0.75, leaf(2), leaf(3)))
    );
    assert!(update_ratio_for_pane(&mut tree, pane(1), r));
    assert_eq!(
        tree,
        split("horizontal", 0.75, leaf(1), split("vertical", 0.75, leaf(2), leaf(3)))
    );
    // A pane that stands first in no split names none.
    assert!(!update_ratio_for_pane(&mut tree, pane(3), r));
}

#[test]
fn the_tab_of_a_pane_is_found() {
    let mut session = SessionManager::new();
    let id = create(&mut session, "create");
    let layout = session.layout();
    assert_eq!(find_tab_for_pane(&layout, id), Some(layout.workspaces[0].tabs[0].id));
    assert_eq!(find_tab_for_pane(&layout, pane(1)), None);
}

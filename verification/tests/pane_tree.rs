//! The tree of split panes.

use forgetty::ratio::{Ratio, HALF_BITS};
use forgetty::ui::pane::PaneId;
use forgetty::ui::pane_tree::{PaneNode, SplitDirection};

fn pid(n: u64) -> PaneId {
    PaneId(n)
}

#[test]
fn test_split_leaf() {
    let mut tree = PaneNode::Leaf(pid(1));
    assert!(tree.split(pid(1), SplitDirection::Horizontal, pid(2)));

    let ids = tree.pane_ids();
    assert_eq!(ids.len(), 2);
    assert!(ids.contains(&pid(1)));
    assert!(ids.contains(&pid(2)));
}

#[test]
fn test_split_nonexistent() {
    let mut tree = PaneNode::Leaf(pid(1));
    assert!(!tree.split(pid(99), SplitDirection::Horizontal, pid(2)));
}

#[test]
fn test_remove_from_split() {
    let mut tree = PaneNode::Leaf(pid(1));
    tree.split(pid(1), SplitDirection::Horizontal, pid(2));

    // Without pane 2 the tree is pane 1 again.
    assert!(tree.remove(pid(2)));
    assert_eq!(tree.pane_ids(), vec![pid(1)]);
}

#[test]
fn test_remove_from_root_leaf() {
    let mut tree = PaneNode::Leaf(pid(1));
    // The only leaf stays.
    assert!(!tree.remove(pid(1)));
}

#[test]
fn test_remove_first_child() {
    let mut tree = PaneNode::Leaf(pid(1));
    tree.split(pid(1), SplitDirection::Horizontal, pid(2));

    assert!(tree.remove(pid(1)));
    assert_eq!(tree.pane_ids(), vec![pid(2)]);
}

#[test]
fn test_find_adjacent_horizontal() {
    // [1] | [2]
    let mut tree = PaneNode::Leaf(pid(1));
    tree.split(pid(1), SplitDirection::Horizontal, pid(2));

    // From pane 1, go right -> pane 2
    assert_eq!(tree.find_adjacent(pid(1), SplitDirection::Horizontal, true), Some(pid(2)));
    // From pane 2, go left -> pane 1
    assert_eq!(tree.find_adjacent(pid(2), SplitDirection::Horizontal, false), Some(pid(1)));
    // From pane 1, go left -> None (no pane to the left)
    assert_eq!(tree.find_adjacent(pid(1), SplitDirection::Horizontal, false), None);
    // From pane 2, go right -> None
    assert_eq!(tree.find_adjacent(pid(2), SplitDirection::Horizontal, true), None);
}

#[test]
fn test_find_adjacent_vertical() {
    // [1]
    // ---
    // [2]
    let mut tree = PaneNode::Leaf(pid(1));
    tree.split(pid(1), SplitDirection::Vertical, pid(2));

    assert_eq!(tree.find_adjacent(pid(1), SplitDirection::Vertical, true), Some(pid(2)));
    assert_eq!(tree.find_adjacent(pid(2), SplitDirection::Vertical, false), Some(pid(1)));
}

#[test]
fn test_find_adjacent_cross_direction() {
    // [1] | [2]: nothing lies above or below.
    let mut tree = PaneNode::Leaf(pid(1));
    tree.split(pid(1), SplitDirection::Horizontal, pid(2));

    assert_eq!(tree.find_adjacent(pid(1), SplitDirection::Vertical, true), None);
}

#[test]
fn test_pane_ids() {
    let mut tree = PaneNode::Leaf(pid(1));
    tree.split(pid(1), SplitDirection::Horizontal, pid(2));
    tree.split(pid(2), SplitDirection::Vertical, pid(3));

    let ids = tree.pane_ids();
    assert_eq!(ids, vec![pid(1), pid(2), pid(3)]);
}

#[test]
fn removing_undoes_a_split() {
    let mut tree = PaneNode::Leaf(pid(1));
    tree.split(pid(1), SplitDirection::Horizontal, pid(2));
    let before = tree.copy();
    assert!(tree.split(pid(2), SplitDirection::Vertical, pid(3)));
    assert_ne!(tree, before);
    assert!(tree.remove(pid(3)));
    assert_eq!(tree, before);
}

#[test]
fn a_split_is_even() {
    let mut tree = PaneNode::Leaf(pid(1));
    tree.split(pid(1), SplitDirection::Vertical, pid(2));
    assert_eq!(
        tree,
        PaneNode::Split {
            direction: SplitDirection::Vertical,
            ratio: Ratio { bits: HALF_BITS },
            first: Box::new(PaneNode::Leaf(pid(1))),
            second: Box::new(PaneNode::Leaf(pid(2))),
        }
    );
    assert_eq!(f32::from_bits(HALF_BITS), 0.5);
}

#[test]
fn refused_changes_leave_the_tree() {
    let mut tree = PaneNode::Leaf(pid(1));
    tree.split(pid(1), SplitDirection::Vertical, pid(2));
    let before = tree.copy();
    assert!(!tree.split(pid(7), SplitDirection::Vertical, pid(3)));
    assert!(!tree.remove(pid(7)));
    assert_eq!(tree, before);
    assert!(tree.contains(pid(2)));
    assert!(!tree.contains(pid(7)));
}

#[test]
fn the_nearest_pane_of_a_neighbouring_subtree_is_found() {
    // [1] | [2] over [3]
    let mut tree = PaneNode::Leaf(pid(1));
    tree.split(pid(1), SplitDirection::Horizontal, pid(2));
    tree.split(pid(2), SplitDirection::Vertical, pid(3));
    assert_eq!(tree.find_adjacent(pid(1), SplitDirection::Horizontal, true), Some(pid(2)));
    assert_eq!(tree.find_adjacent(pid(3), SplitDirection::Horizontal, false), Some(pid(1)));
    assert_eq!(tree.find_adjacent(pid(2), SplitDirection::Vertical, true), Some(pid(3)));
    assert_eq!(tree.first_leaf(), pid(1));
    assert_eq!(tree.last_leaf(), pid(3));
}

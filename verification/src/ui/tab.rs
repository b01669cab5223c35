//! Tabs of a window.

use vstd::prelude::*;

use crate::seqs::{lemma_first_at, lemma_first_none};
use crate::ui::pane::PaneId;
use crate::ui::pane_tree::{
    adjacent, law_adjacent_in_tree, law_node_remove_takes_one, law_node_split_adds_one,
    lemma_node_nonempty, node_has, node_ids, node_split, node_without, one_taken, PaneNode,
    SplitDirection,
};

verus! {

/// A tab of a window.
#[derive(Clone, Copy, Debug, PartialEq, Eq, Hash, Structural)]
pub struct TabId(pub u64);

impl TabId {
    /// The next unused id. The counter moves on by one, from the largest value
    /// to zero.
    pub fn next(counter: &mut u64) -> (id: TabId)
        ensures
            id.0 == *old(counter),
            *final(counter) == if *old(counter) == u64::MAX {
                0
            } else {
                (*old(counter) + 1) as u64
            },
    {
        let id = TabId(*counter);
        *counter = counter.wrapping_add(1);
        id
    }
}

/// A tab: its panes, and the one that has the focus.
#[derive(Debug, PartialEq, Eq)]
pub struct Tab {
    pub id: TabId,
    pub pane_tree: PaneNode,
    pub focused_pane: PaneId,
    pub title: String,
}

/// A tab as a mathematical value.
pub ghost struct TabModel {
    pub id: TabId,
    pub pane_tree: PaneNode,
    pub focused_pane: PaneId,
    pub title: Seq<char>,
}

impl View for Tab {
    type V = TabModel;

    open spec fn view(&self) -> TabModel {
        TabModel {
            id: self.id,
            pane_tree: self.pane_tree,
            focused_pane: self.focused_pane,
            title: self.title@,
        }
    }
}

/// The pane behind `focused` in tree order, the first behind the last; the
/// first where `focused` is not in the tree.
pub open spec fn next_focus(ids: Seq<PaneId>, focused: PaneId) -> PaneId {
    match ids.index_of_first(focused) {
        Some(i) => ids[(i + 1) % (ids.len() as int)],
        None => ids[0],
    }
}

proof fn lemma_others_stay(
    ids: Seq<PaneId>,
    rest: Seq<PaneId>,
    target: PaneId,
    i: int,
    j: int,
)
    requires
        one_taken(ids, rest, target),
        0 <= j < ids.len(),
        ids[j] != target || (0 <= i < ids.len() && i != j && ids[i] == target),
    ensures
        rest.contains(ids[j]),
{
    let k = choose|k: int| 0 <= k < ids.len() && ids[k] == target && rest == #[trigger] ids.remove(
        k,
    );
    let kept = if k == j {
        i
    } else {
        j
    };
    let at = if kept < k {
        kept
    } else {
        kept - 1
    };
    assert(rest[at] == ids[kept]);
}

/// A tab whose focused pane stands in its tree keeps one, whichever pane is
/// closed.
proof fn lemma_focus_after_close(tree: PaneNode, focused: PaneId, pane_id: PaneId)
    requires
        node_has(tree, focused),
        node_ids(tree).len() > 1,
    ensures
        ({
            let focus = if focused == pane_id {
                next_focus(node_ids(tree), pane_id)
            } else {
                focused
            };
            match node_without(tree, pane_id) {
                Some(rest) => node_has(rest, focus),
                None => node_has(tree, focus),
            }
        }),
{
    let ids = node_ids(tree);
    ids.index_of_first_ensures(pane_id);
    if focused == pane_id {
        let i = ids.index_of_first(pane_id)->0;
        let j = (i + 1) % (ids.len() as int);
        if i + 1 < ids.len() {
            vstd::arithmetic::div_mod::lemma_small_mod((i + 1) as nat, ids.len());
        } else {
            vstd::arithmetic::div_mod::lemma_mod_self_0(ids.len() as int);
        }
        if node_without(tree, pane_id) is Some {
            law_node_remove_takes_one(tree, pane_id);
            lemma_others_stay(ids, node_ids(node_without(tree, pane_id)->0), pane_id, i, j);
        }
    } else if node_without(tree, pane_id) is Some {
        law_node_remove_takes_one(tree, pane_id);
        let j = choose|j: int| 0 <= j < ids.len() && ids[j] == focused;
        lemma_others_stay(ids, node_ids(node_without(tree, pane_id)->0), pane_id, j, j);
    }
}

impl Tab {
    /// The focused pane stands in the tree.
    pub open spec fn wf(&self) -> bool {
        node_has(self.pane_tree, self.focused_pane)
    }

    /// A tab with one pane.
    pub fn new(id: TabId, initial_pane: PaneId) -> (t: Tab)
        ensures
            t.wf(),
            t.id == id,
            t.pane_tree == PaneNode::Leaf(initial_pane),
            t.focused_pane == initial_pane,
            t.title@ == "shell"@,
    {
        assert(node_ids(PaneNode::Leaf(initial_pane))[0] == initial_pane);
        Tab {
            id,
            pane_tree: PaneNode::Leaf(initial_pane),
            focused_pane: initial_pane,
            title: "shell".to_owned(),
        }
    }

    /// Splits the focused pane; the new pane becomes the second child.
    pub fn split(&mut self, direction: SplitDirection, new_pane: PaneId)
        ensures
            old(self).wf() ==> final(self).wf(),
            final(self).id == old(self).id,
            final(self).title == old(self).title,
            final(self).focused_pane == old(self).focused_pane,
            final(self).pane_tree == if node_has(old(self).pane_tree, old(self).focused_pane) {
                node_split(
                    old(self).pane_tree,
                    old(self).focused_pane,
                    direction,
                    new_pane,
                )
            } else {
                old(self).pane_tree
            },
    {
        let focused = self.focused_pane;
        let _ = self.pane_tree.split(focused, direction, new_pane);
        proof {
            let before = old(self).pane_tree;
            if node_has(before, focused) {
                law_node_split_adds_one(before, focused, direction, new_pane);
                let ids = node_ids(before);
                let k = choose|k: int|
                    #![trigger ids.insert(k + 1, new_pane)]
                    0 <= k < ids.len() && ids[k] == focused && node_ids(
                        node_split(before, focused, direction, new_pane),
                    ) == ids.insert(k + 1, new_pane);
                assert(ids.insert(k + 1, new_pane)[k] == focused);
            }
        }
    }

    /// Closes a pane. Returns true, and changes nothing, where it is the last
    /// one, so that the tab is to close. If the pane had the focus, the next
    /// one gets it.
    pub fn close_pane(&mut self, pane_id: PaneId) -> (last: bool)
        ensures
            old(self).wf() ==> final(self).wf(),
            last == (node_ids(old(self).pane_tree).len() <= 1),
            final(self).id == old(self).id,
            final(self).title == old(self).title,
            last ==> *final(self) == *old(self),
            !last ==> final(self).focused_pane == if old(self).focused_pane == pane_id {
                next_focus(node_ids(old(self).pane_tree), pane_id)
            } else {
                old(self).focused_pane
            },
            !last ==> final(self).pane_tree == match node_without(old(self).pane_tree, pane_id) {
                Some(rest) => rest,
                None => old(self).pane_tree,
            },
    {
        let ids = self.pane_tree.pane_ids();
        if ids.len() <= 1 {
            return true;
        }
        proof {
            if self.wf() {
                lemma_focus_after_close(self.pane_tree, self.focused_pane, pane_id);
            }
        }
        if self.focused_pane == pane_id {
            self.focus_next();
        }
        let _ = self.pane_tree.remove(pane_id);
        false
    }

    /// Moves the focus to the next pane in tree order.
    pub fn focus_next(&mut self)
        ensures
            final(self).wf(),
            final(self).id == old(self).id,
            final(self).title == old(self).title,
            final(self).pane_tree == old(self).pane_tree,
            final(self).focused_pane == next_focus(
                node_ids(old(self).pane_tree),
                old(self).focused_pane,
            ),
    {
        let ids = self.pane_tree.pane_ids();
        let focused = self.focused_pane;
        proof {
            lemma_node_nonempty(self.pane_tree);
        }
        let mut i: usize = 0;
        while i < ids.len()
            invariant
                i <= ids@.len(),
                ids@.len() > 0,
                forall|j: int| 0 <= j < i ==> ids@[j] != focused,
                ids@ == node_ids(old(self).pane_tree),
                focused == old(self).focused_pane,
                *self == *old(self),
            decreases ids@.len() - i,
        {
            if ids[i] == focused {
                proof {
                    lemma_first_at(ids@, focused, i as int);
                }
                let next: usize = if i + 1 < ids.len() {
                    i + 1
                } else {
                    0
                };
                assert(next as int == (i as int + 1) % (ids@.len() as int)) by {
                    if i + 1 < ids@.len() {
                        vstd::arithmetic::div_mod::lemma_small_mod(
                            (i + 1) as nat,
                            ids@.len() as nat,
                        );
                    } else {
                        vstd::arithmetic::div_mod::lemma_mod_self_0(ids@.len() as int);
                    }
                }
                self.focused_pane = ids[next];
                return;
            }
            i = i + 1;
        }
        proof {
            lemma_first_none(ids@, focused);
        }
        self.focused_pane = ids[0];
    }

    /// Moves the focus to the pane next to the focused one, where there is one.
    pub fn focus_direction(&mut self, direction: SplitDirection, forward: bool)
        ensures
            old(self).wf() ==> final(self).wf(),
            final(self).id == old(self).id,
            final(self).title == old(self).title,
            final(self).pane_tree == old(self).pane_tree,
            final(self).focused_pane == match adjacent(
                old(self).pane_tree,
                old(self).focused_pane,
                direction,
                forward,
            ) {
                Some(id) => id,
                None => old(self).focused_pane,
            },
    {
        proof {
            law_adjacent_in_tree(self.pane_tree, self.focused_pane, direction, forward);
        }
        if let Some(next) = self.pane_tree.find_adjacent(self.focused_pane, direction, forward) {
            self.focused_pane = next;
        }
    }
}

} // verus!

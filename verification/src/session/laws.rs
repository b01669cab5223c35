//! What holds of a session whatever is done with it.

use vstd::prelude::*;

use crate::ids::PaneId;
use crate::ratio::Ratio;
use crate::seqs::{lemma_sum_bounds_element, lemma_sum_bounds_two};
use crate::session::layout::{
    find_pane, find_tab, leaves, lemma_find_pane_valid, lemma_find_tab_valid, tab_ids, tree_has,
    tree_with_split, tree_without, LayoutModel, PaneTree, WorkspaceModel,
};
use crate::session::model::{
    active_after_delete, active_ok, has_tab, lemma_find_pane_count, lemma_leaf_count,
    lemma_tab_in_layout_count, registered, session_ok, tab_closed, tab_counts, tab_moved,
    tabs_leaves, without_tab, workspace_counts, workspace_deleted, SessionModel,
};
use crate::session::model_laws::{lemma_moved_active, lemma_panes_gone};

verus! {

/// Closing a pane that was split off brings back the tree from before the
/// split.
pub proof fn law_closing_undoes_a_split(
    t: PaneTree,
    target: PaneId,
    new_pane: PaneId,
    direction: Seq<char>,
    ratio: Ratio,
)
    requires
        tree_has(t, target),
        !tree_has(t, new_pane),
    ensures
        tree_without(tree_with_split(t, target, new_pane, direction, ratio), new_pane) == Some(t),
    decreases t,
{
    match t {
        PaneTree::Leaf { pane_id } => {
            assert(leaves(t)[0] == pane_id);
            let first = PaneTree::Leaf { pane_id: target };
            let second = PaneTree::Leaf { pane_id: new_pane };
            assert(leaves(first) =~= seq![target]);
            assert(leaves(second)[0] == new_pane);
            assert(!tree_has(first, new_pane));
            assert(tree_without(second, new_pane) is None);
        },
        PaneTree::Split { direction: d, ratio: r, first, second } => {
            assert(leaves(t) == leaves(*first) + leaves(*second));
            lemma_side_has(*first, *second, t, target);
            lemma_side_has(*first, *second, t, new_pane);
            if tree_has(*first, target) {
                law_closing_undoes_a_split(*first, target, new_pane, direction, ratio);
                lemma_split_has_new(*first, target, new_pane, direction, ratio);
            } else {
                law_closing_undoes_a_split(*second, target, new_pane, direction, ratio);
            }
        },
    }
}

proof fn lemma_side_has(first: PaneTree, second: PaneTree, t: PaneTree, pane: PaneId)
    requires
        leaves(t) == leaves(first) + leaves(second),
    ensures
        tree_has(t, pane) <==> tree_has(first, pane) || tree_has(second, pane),
{
    let a = leaves(first);
    let b = leaves(second);
    let s = leaves(t);
    if s.contains(pane) {
        let i = choose|i: int| 0 <= i < s.len() && s[i] == pane;
        if i < a.len() {
            assert(a[i] == pane);
        } else {
            assert(b[i - a.len()] == pane);
        }
    }
    if a.contains(pane) {
        let i = choose|i: int| 0 <= i < a.len() && a[i] == pane;
        assert(s[i] == pane);
    }
    if b.contains(pane) {
        let i = choose|i: int| 0 <= i < b.len() && b[i] == pane;
        assert(s[a.len() + i] == pane);
    }
}

proof fn lemma_split_has_new(
    t: PaneTree,
    target: PaneId,
    new_pane: PaneId,
    direction: Seq<char>,
    ratio: Ratio,
)
    requires
        tree_has(t, target),
    ensures
        tree_has(tree_with_split(t, target, new_pane, direction, ratio), new_pane),
    decreases t,
{
    match t {
        PaneTree::Leaf { pane_id } => {
            assert(leaves(t)[0] == pane_id);
            let after = tree_with_split(t, target, new_pane, direction, ratio);
            assert(leaves(PaneTree::Leaf { pane_id: new_pane })[0] == new_pane);
            lemma_side_has(
                PaneTree::Leaf { pane_id: target },
                PaneTree::Leaf { pane_id: new_pane },
                after,
                new_pane,
            );
            assert(tree_has(PaneTree::Leaf { pane_id: new_pane }, new_pane));
        },
        PaneTree::Split { direction: d, ratio: r, first, second } => {
            lemma_side_has(*first, *second, t, target);
            let after = tree_with_split(t, target, new_pane, direction, ratio);
            if tree_has(*first, target) {
                lemma_split_has_new(*first, target, new_pane, direction, ratio);
                lemma_side_has(
                    tree_with_split(*first, target, new_pane, direction, ratio),
                    *second,
                    after,
                    new_pane,
                );
            } else {
                lemma_split_has_new(*second, target, new_pane, direction, ratio);
                lemma_side_has(
                    *first,
                    tree_with_split(*second, target, new_pane, direction, ratio),
                    after,
                    new_pane,
                );
            }
        },
    }
}

/// Whether a tree is another one, or stands in it.
pub open spec fn is_part_of(t: PaneTree, part: PaneTree) -> bool
    decreases t,
{
    t == part || match t {
        PaneTree::Leaf { .. } => false,
        PaneTree::Split { first, second, .. } => is_part_of(*first, part) || is_part_of(
            *second,
            part,
        ),
    }
}

/// Splitting a pane makes it the first of a pair with the new one, in the asked
/// direction and ratio, and every part of the tree without the pane stays.
pub proof fn law_split_makes_a_pair(
    t: PaneTree,
    target: PaneId,
    new_pane: PaneId,
    direction: Seq<char>,
    ratio: Ratio,
)
    requires
        tree_has(t, target),
    ensures
        is_part_of(
            tree_with_split(t, target, new_pane, direction, ratio),
            PaneTree::Split {
                direction,
                ratio,
                first: Box::new(PaneTree::Leaf { pane_id: target }),
                second: Box::new(PaneTree::Leaf { pane_id: new_pane }),
            },
        ),
        forall|part: PaneTree| #[trigger]
            is_part_of(t, part) && !tree_has(part, target) ==> is_part_of(
                tree_with_split(t, target, new_pane, direction, ratio),
                part,
            ),
    decreases t,
{
    match t {
        PaneTree::Leaf { pane_id } => {
            assert(leaves(t)[0] == pane_id);
            assert forall|part: PaneTree| #[trigger] is_part_of(t, part) implies tree_has(
                part,
                target,
            ) by {
                assert(part == t);
            }
        },
        PaneTree::Split { direction: d, ratio: r, first, second } => {
            lemma_side_has(*first, *second, t, target);
            if tree_has(*first, target) {
                law_split_makes_a_pair(*first, target, new_pane, direction, ratio);
            } else {
                law_split_makes_a_pair(*second, target, new_pane, direction, ratio);
            }
            let after = tree_with_split(t, target, new_pane, direction, ratio);
            assert forall|part: PaneTree| #[trigger]
                is_part_of(t, part) && !tree_has(part, target) implies is_part_of(after, part) by {
                assert(part != t);
                assert(is_part_of(*first, part) || is_part_of(*second, part));
            }
        },
    }
}

/// Taking a pane out of a tree keeps every part that does not hold it.
pub proof fn law_closing_keeps_the_other_parts(t: PaneTree, target: PaneId)
    requires
        tree_has(t, target),
    ensures
        tree_without(t, target) matches Some(rest) ==> forall|part: PaneTree| #[trigger]
            is_part_of(t, part) && !tree_has(part, target) ==> is_part_of(rest, part),
        tree_without(t, target) is None ==> t == (PaneTree::Leaf { pane_id: target }),
    decreases t,
{
    match t {
        PaneTree::Leaf { pane_id } => {
            assert(leaves(t)[0] == pane_id);
        },
        PaneTree::Split { direction: d, ratio: r, first, second } => {
            lemma_side_has(*first, *second, t, target);
            if tree_has(*first, target) {
                law_closing_keeps_the_other_parts(*first, target);
                if tree_without(*first, target) is None {
                    assert(leaves(*first)[0] == target);
                }
            } else {
                law_closing_keeps_the_other_parts(*second, target);
                if tree_without(*second, target) is None {
                    assert(leaves(*second)[0] == target);
                }
            }
            if let Some(rest) = tree_without(t, target) {
                assert forall|part: PaneTree| #[trigger]
                    is_part_of(t, part) && !tree_has(part, target) implies is_part_of(
                    rest,
                    part,
                ) by {
                    assert(part != t);
                    assert(is_part_of(*first, part) || is_part_of(*second, part));
                    if tree_has(*first, target) {
                        if tree_without(*first, target) is None && is_part_of(*first, part) {
                            assert(*first == part);
                        }
                    } else if tree_without(*second, target) is None && is_part_of(*second, part) {
                        assert(*second == part);
                    }
                }
            }
        },
    }
}

/// Whether a pane stands in a tab of a layout.
pub open spec fn stands_in(layout: LayoutModel, w: int, t: int, pane: PaneId) -> bool {
    0 <= w < layout.workspaces.len() && 0 <= t < layout.workspaces[w].tabs.len() && tree_has(
        layout.workspaces[w].tabs[t].pane_tree,
        pane,
    )
}

/// A live pane stands in one tab of the layout and in no other.
pub proof fn law_live_pane_has_one_place(m: SessionModel, pane: PaneId)
    requires
        session_ok(m),
        registered(m.panes, pane),
    ensures
        find_pane(m.layout, pane) matches Some((w, t)) && stands_in(m.layout, w, t, pane) && (
        forall|v: int, u: int| #[trigger]
            stands_in(m.layout, v, u, pane) ==> (v, u) == (w, t)),
{
    lemma_find_pane_count(m.layout, pane);
    lemma_find_pane_valid(m.layout.workspaces, pane, 0);
    let (w, t) = find_pane(m.layout, pane)->0;
    assert forall|v: int, u: int| #[trigger] stands_in(m.layout, v, u, pane) implies (v, u) == (
        w,
        t,
    ) by {
        let counts = workspace_counts(m.layout.workspaces, pane);
        let tabs = m.layout.workspaces[w].tabs;
        lemma_leaf_count(tabs[t].pane_tree, pane);
        lemma_leaf_count(m.layout.workspaces[v].tabs[u].pane_tree, pane);
        lemma_tab_in_layout_count(m.layout, w, t, pane);
        lemma_tab_in_layout_count(m.layout, v, u, pane);
        if v != w {
            assert(counts[w] >= 1 && counts[v] >= 1);
            lemma_sum_bounds_two(counts, w, v);
        } else if u != t {
            let inner = tab_counts(tabs, pane);
            assert(inner[t] >= 1 && inner[u] >= 1);
            lemma_sum_bounds_two(inner, t, u);
            lemma_sum_bounds_element(counts, w);
        }
    }
}

/// A tab id names one tab: looking for the id of a tab finds that tab.
pub proof fn law_tab_has_one_place(m: SessionModel, w: int, t: int)
    requires
        session_ok(m),
        0 <= w < m.layout.workspaces.len(),
        0 <= t < m.layout.workspaces[w].tabs.len(),
    ensures
        find_tab(m.layout, m.layout.workspaces[w].tabs[t].id) == Some((w, t)),
{
    let id = m.layout.workspaces[w].tabs[t].id;
    lemma_find_tab_valid(m.layout.workspaces, id, 0);
    assert(find_tab(m.layout, id) is Some);
    let (v, u) = find_tab(m.layout, id)->0;
    let ids = tab_ids(m.layout.workspaces[w].tabs);
    assert(ids[t] == id);
    assert(tab_ids(m.layout.workspaces[v].tabs)[u] == id);
    assert(has_tab(m.layout, w, id) && has_tab(m.layout, v, id));
    assert(m.layout.workspaces[w] == m.layout.workspaces[v]);
    assert(ids.no_duplicates());
    assert(ids[u] == ids[t]);
}

/// With a tab exactly the panes in it are gone.
pub proof fn law_tab_takes_its_panes_along(m: SessionModel, w: int, t: int, pane: PaneId)
    requires
        session_ok(m),
        0 <= w < m.layout.workspaces.len(),
        0 <= t < m.layout.workspaces[w].tabs.len(),
    ensures
        registered(tab_closed(m, w, t).panes, pane) <==> registered(m.panes, pane) && !tree_has(
            m.layout.workspaces[w].tabs[t].pane_tree,
            pane,
        ),
{
    lemma_panes_gone(
        SessionModel { layout: without_tab(m.layout, w, t), ..m },
        leaves(m.layout.workspaces[w].tabs[t].pane_tree),
    );
}

/// With a workspace exactly the panes in it are gone, and the workspace that is
/// shown stays the one that is shown, unless it was this one.
pub proof fn law_workspace_takes_its_panes_along(m: SessionModel, w: int, pane: PaneId)
    requires
        session_ok(m),
        m.layout.workspaces.len() > 1,
        m.layout.workspaces.len() <= usize::MAX,
        0 <= w < m.layout.workspaces.len(),
    ensures
        registered(workspace_deleted(m, w).panes, pane) <==> registered(m.panes, pane)
            && !tabs_leaves(m.layout.workspaces[w].tabs).contains(pane),
        m.layout.active_workspace != w ==> workspace_deleted(m, w).layout.workspaces[workspace_deleted(
            m,
            w,
        ).layout.active_workspace as int]
            == m.layout.workspaces[m.layout.active_workspace as int],
{
    lemma_panes_gone(
        SessionModel {
            layout: LayoutModel {
                workspaces: m.layout.workspaces.remove(w),
                active_workspace: active_after_delete(
                    m.layout.active_workspace,
                    w,
                    (m.layout.workspaces.len() - 1) as nat,
                ),
            },
            ..m
        },
        tabs_leaves(m.layout.workspaces[w].tabs),
    );
}

/// A tab that is moved stands where it was moved to, the others keep their
/// order, the tab that is shown stays the one that is shown, and moving it back
/// brings back the order from before. No two tabs of a workspace have the same
/// id.
pub proof fn law_moving_a_tab(ws: WorkspaceModel, from: int, to: int)
    requires
        active_ok(ws),
        0 <= from < ws.tabs.len(),
        0 <= to < ws.tabs.len(),
        ws.tabs.len() <= usize::MAX,
        tab_ids(ws.tabs).no_duplicates(),
    ensures
        tab_moved(ws, from, to).tabs[to] == ws.tabs[from],
        tab_moved(ws, from, to).tabs.remove(to) == ws.tabs.remove(from),
        tab_moved(ws, from, to).tabs[tab_moved(ws, from, to).active_tab as int]
            == ws.tabs[ws.active_tab as int],
        tab_moved(tab_moved(ws, from, to), to, from).tabs == ws.tabs,
{
    lemma_moved_active(ws, from, to);
    let moved = tab_moved(ws, from, to).tabs;
    let k = tab_moved(ws, from, to).active_tab as int;
    let r = if k < to {
        k
    } else {
        k - 1
    };
    let origin = if k == to {
        from
    } else if r < from {
        r
    } else {
        r + 1
    };
    assert(moved[k] == ws.tabs[origin]);
    assert(tab_ids(ws.tabs)[origin] == tab_ids(ws.tabs)[ws.active_tab as int]);
    assert(moved.remove(to) =~= ws.tabs.remove(from));
    assert(tab_moved(tab_moved(ws, from, to), to, from).tabs =~= ws.tabs);
}

} // verus!

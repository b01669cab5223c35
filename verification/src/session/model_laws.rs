//! Every step of a session keeps what holds of every session.

use vstd::prelude::*;

use crate::ids::{PaneId, Uuid};
use crate::ratio::Ratio;
use crate::seqs::{lemma_first_is, lemma_sum_push, lemma_sum_remove, lemma_sum_zero};
use crate::session::layout::{
    find_pane, leaves, lemma_find_pane_valid, tab_ids, tab_index, tree_with_split, tree_without,
    LayoutModel, PaneTree, TabModel, WorkspaceModel,
};
use crate::session::model::{
    active_after_delete, active_ok, clamp_active, distinct, has_tab, is_fresh, is_fresh_tab,
    layout_count, layout_with_ratio, leaf_count, leaf_tab_from, lemma_leaf_count,
    lemma_logs_without, lemma_panes_without, lemma_push_registered, lemma_ratio_count,
    lemma_split_count, lemma_tabs_insert_count, lemma_tabs_push_count, lemma_tabs_remove_count,
    lemma_tabs_update_count, lemma_with_tabs_count, lemma_without_count, log_ids, pane_closed,
    pane_gone, pane_ids, panes_gone, registered, session_ok, sibling_promoted, tab_closed,
    tab_counts, tab_moved, tabs_count, tabs_distinct, tabs_leaves, tabs_with_ratio,
    with_pane_in_new_tab, with_split_pane, with_tabs, without_tab, workspace_counts,
    workspace_deleted, PaneModel, SessionModel,
};

verus! {

pub proof fn lemma_ok_empty(m: SessionModel)
    requires
        m.panes.len() == 0,
        m.logs.len() == 0,
        m.layout.workspaces.len() == 1,
        m.layout.workspaces[0].tabs.len() == 0,
        m.layout.workspaces[0].active_tab == 0,
        m.layout.active_workspace == 0,
    ensures
        session_ok(m),
{
    assert forall|p: PaneId| #[trigger] layout_count(m.layout, p) == 0 by {
        lemma_sum_zero(tab_counts(m.layout.workspaces[0].tabs, p));
        lemma_sum_zero(workspace_counts(m.layout.workspaces, p));
    }
    assert forall|p: PaneId| !#[trigger] registered(m.panes, p) by {}
}

pub proof fn lemma_ok_same_layout(m: SessionModel, n: SessionModel)
    requires
        session_ok(m),
        n.layout == m.layout,
        n.panes == m.panes,
        n.logs == m.logs,
    ensures
        session_ok(n),
{
}

/// A layout whose tabs changed in one workspace only, and in which the panes
/// count as `after` says.
proof fn lemma_ok_with_tabs(
    m: SessionModel,
    n: SessionModel,
    w: int,
    tabs: Seq<TabModel>,
    active: usize,
)
    requires
        session_ok(m),
        0 <= w < m.layout.workspaces.len(),
        n.layout == with_tabs(m.layout, w, tabs, active),
        active < tabs.len() || (tabs.len() == 0 && active == 0),
        tab_ids(tabs).no_duplicates(),
        forall|id: Uuid| #[trigger]
            tab_ids(tabs).contains(id) ==> has_tab(m.layout, w, id) || is_fresh_tab(m, id),
        distinct(pane_ids(n.panes)),
        distinct(log_ids(n.logs)),
        forall|i: int| 0 <= i < n.logs.len() ==> (#[trigger] n.logs[i]).1.ok(),
        forall|p: PaneId| #[trigger] layout_count(n.layout, p) <= 1,
        forall|p: PaneId| #[trigger] registered(n.panes, p) ==> layout_count(n.layout, p) == 1,
    ensures
        session_ok(n),
{
    assert forall|v: int| 0 <= v < n.layout.workspaces.len() implies active_ok(
        #[trigger] n.layout.workspaces[v],
    ) by {
        if v != w {
            assert(n.layout.workspaces[v] == m.layout.workspaces[v]);
        }
    }
    assert forall|v: int| 0 <= v < n.layout.workspaces.len() implies tab_ids(
        (#[trigger] n.layout.workspaces[v]).tabs,
    ).no_duplicates() by {
        if v != w {
            assert(n.layout.workspaces[v] == m.layout.workspaces[v]);
        }
    }
    assert forall|u: int, v: int, id: Uuid| #[trigger]
        has_tab(n.layout, u, id) && #[trigger] has_tab(n.layout, v, id) implies u == v by {
        if u != w {
            assert(n.layout.workspaces[u] == m.layout.workspaces[u]);
            assert(has_tab(m.layout, u, id));
        }
        if v != w {
            assert(n.layout.workspaces[v] == m.layout.workspaces[v]);
            assert(has_tab(m.layout, v, id));
        }
    }
}

/// Tabs whose ids are those of other tabs, each at a position of its own, are
/// as distinct as those.
proof fn lemma_tab_ids_from(before: Seq<TabModel>, after: Seq<TabModel>, from: spec_fn(int) -> int)
    requires
        tab_ids(before).no_duplicates(),
        forall|i: int|
            0 <= i < after.len() ==> 0 <= from(i) < before.len() && (#[trigger] after[i]).id
                == before[from(i)].id,
        forall|i: int, j: int|
            0 <= i < after.len() && 0 <= j < after.len() && i != j ==> #[trigger] from(i)
                != #[trigger] from(j),
    ensures
        tab_ids(after).no_duplicates(),
        forall|id: Uuid| #[trigger]
            tab_ids(after).contains(id) ==> tab_ids(before).contains(id),
{
    let a = tab_ids(before);
    let b = tab_ids(after);
    assert forall|i: int, j: int| 0 <= i < b.len() && 0 <= j < b.len() && i != j implies b[i]
        != b[j] by {
        assert(after[i].id == before[from(i)].id && after[j].id == before[from(j)].id);
        assert(a[from(i)] != a[from(j)]);
    }
    assert forall|id: Uuid| #[trigger] b.contains(id) implies a.contains(id) by {
        let i = choose|i: int| 0 <= i < b.len() && b[i] == id;
        assert(after[i].id == before[from(i)].id);
        assert(a[from(i)] == id);
    }
}

pub proof fn lemma_ok_after_new_tab(m: SessionModel, w: int, pane: PaneModel, tab_id: Uuid)
    requires
        session_ok(m),
        0 <= w < m.layout.workspaces.len(),
        is_fresh(m, pane.id),
        is_fresh_tab(m, tab_id),
    ensures
        session_ok(with_pane_in_new_tab(m, w, pane, tab_id)),
{
    let n = with_pane_in_new_tab(m, w, pane, tab_id);
    let ws = m.layout.workspaces[w];
    let tab = TabModel {
        id: tab_id,
        title: Seq::empty(),
        pane_tree: PaneTree::Leaf { pane_id: pane.id },
    };
    assert forall|p: PaneId| #[trigger] layout_count(n.layout, p) == layout_count(m.layout, p) + (
    if p == pane.id {
        1nat
    } else {
        0
    }) by {
        lemma_tabs_push_count(ws.tabs, tab, p);
        lemma_with_tabs_count(m.layout, w, ws.tabs.push(tab), ws.active_tab, p);
    }
    lemma_push_registered(m.panes, pane);
    assert(active_ok(ws));
    let ids = tab_ids(ws.tabs);
    assert(tab_ids(ws.tabs.push(tab)) =~= ids.push(tab_id));
    assert(!has_tab(m.layout, w, tab_id));
    assert(ids.push(tab_id).no_duplicates()) by {
        assert forall|i: int| 0 <= i < ids.len() implies ids[i] != tab_id by {
            assert(ids.contains(ids[i]));
        }
    }
    assert forall|id: Uuid| #[trigger] ids.push(tab_id).contains(id) implies has_tab(
        m.layout,
        w,
        id,
    ) || is_fresh_tab(m, id) by {
        if id != tab_id {
            let k = choose|k: int| 0 <= k < ids.push(tab_id).len() && ids.push(tab_id)[k] == id;
            assert(ids[k] == id);
        }
    }
    lemma_ok_with_tabs(m, n, w, ws.tabs.push(tab), ws.active_tab);
}

pub proof fn lemma_ok_after_split(
    m: SessionModel,
    target: PaneId,
    pane: PaneModel,
    direction: Seq<char>,
    ratio: Ratio,
)
    requires
        session_ok(m),
        find_pane(m.layout, target) is Some,
        is_fresh(m, pane.id),
    ensures
        session_ok(with_split_pane(m, target, pane, direction, ratio)),
{
    let n = with_split_pane(m, target, pane, direction, ratio);
    let (w, t) = find_pane(m.layout, target)->0;
    lemma_find_pane_valid(m.layout.workspaces, target, 0);
    let ws = m.layout.workspaces[w];
    let tree = tree_with_split(ws.tabs[t].pane_tree, target, pane.id, direction, ratio);
    let tab = TabModel { pane_tree: tree, ..ws.tabs[t] };
    assert forall|p: PaneId| #[trigger] layout_count(n.layout, p) == layout_count(m.layout, p) + (
    if p == pane.id {
        1nat
    } else {
        0
    }) by {
        lemma_split_count(ws.tabs[t].pane_tree, target, pane.id, direction, ratio, p);
        lemma_tabs_update_count(ws.tabs, t, tab, p);
        lemma_with_tabs_count(m.layout, w, ws.tabs.update(t, tab), ws.active_tab, p);
    }
    lemma_push_registered(m.panes, pane);
    assert(active_ok(ws));
    lemma_tab_ids_from(ws.tabs, ws.tabs.update(t, tab), |i: int| i);
    lemma_ok_with_tabs(m, n, w, ws.tabs.update(t, tab), ws.active_tab);
}

/// What leaves the registry with some panes: those panes, and nothing else.
pub proof fn lemma_panes_gone(m: SessionModel, ids: Seq<PaneId>)
    requires
        distinct(pane_ids(m.panes)),
        distinct(log_ids(m.logs)),
        forall|i: int| 0 <= i < m.logs.len() ==> (#[trigger] m.logs[i]).1.ok(),
    ensures
        panes_gone(m, ids).layout == m.layout,
        panes_gone(m, ids).pinned == m.pinned,
        distinct(pane_ids(panes_gone(m, ids).panes)),
        distinct(log_ids(panes_gone(m, ids).logs)),
        forall|i: int|
            0 <= i < panes_gone(m, ids).logs.len() ==> (#[trigger] panes_gone(m, ids).logs[i]).1.ok(),
        forall|p: PaneId| #[trigger]
            registered(panes_gone(m, ids).panes, p) <==> registered(m.panes, p) && !ids.contains(p),
    decreases ids.len(),
{
    if ids.len() > 0 {
        let rest = ids.drop_last();
        lemma_panes_gone(m, rest);
        let n = panes_gone(m, rest);
        lemma_panes_without(n.panes, ids.last());
        lemma_logs_without(n.logs, ids.last());
        assert forall|p: PaneId| #[trigger]
            registered(panes_gone(m, ids).panes, p) <==> registered(m.panes, p) && !ids.contains(
                p,
            ) by {
            if ids.contains(p) && p != ids.last() {
                let k = choose|k: int| 0 <= k < ids.len() && ids[k] == p;
                assert(rest[k] == p);
            }
            if rest.contains(p) {
                let k = choose|k: int| 0 <= k < rest.len() && rest[k] == p;
                assert(ids[k] == p);
            }
            if p == ids.last() {
                assert(ids[ids.len() - 1] == p);
            }
        }
    }
}

pub proof fn lemma_ok_after_pane_gone(m: SessionModel, id: PaneId)
    requires
        session_ok(m),
    ensures
        session_ok(pane_gone(m, id)),
{
    lemma_panes_without(m.panes, id);
    lemma_logs_without(m.logs, id);
}

pub proof fn lemma_ok_after_tab_closed(m: SessionModel, w: int, t: int)
    requires
        session_ok(m),
        0 <= w < m.layout.workspaces.len(),
        0 <= t < m.layout.workspaces[w].tabs.len(),
    ensures
        session_ok(tab_closed(m, w, t)),
{
    let ws = m.layout.workspaces[w];
    let tab = ws.tabs[t];
    let tabs = ws.tabs.remove(t);
    let active = clamp_active(ws.active_tab, tabs.len());
    let mid = SessionModel { layout: without_tab(m.layout, w, t), ..m };
    let n = tab_closed(m, w, t);
    lemma_panes_gone(mid, leaves(tab.pane_tree));
    assert forall|p: PaneId|
        #![trigger layout_count(n.layout, p)]
        layout_count(n.layout, p) + leaf_count(tab.pane_tree, p) == layout_count(m.layout, p) by {
        lemma_tabs_remove_count(ws.tabs, t, p);
        lemma_with_tabs_count(m.layout, w, tabs, active, p);
    }
    assert forall|p: PaneId| #[trigger] registered(n.panes, p) implies layout_count(n.layout, p)
        == 1 by {
        lemma_leaf_count(tab.pane_tree, p);
        assert(registered(m.panes, p));
    }
    assert(active_ok(ws));
    lemma_tab_ids_from(
        ws.tabs,
        tabs,
        |i: int|
            if i < t {
                i
            } else {
                i + 1
            },
    );
    lemma_ok_with_tabs(m, n, w, tabs, active);
}

pub proof fn lemma_leaf_tab_valid(tabs: Seq<TabModel>, pane: PaneId, from: int)
    requires
        0 <= from,
    ensures
        match leaf_tab_from(tabs, pane, from) {
            Some(t) => from <= t < tabs.len() && tabs[t].pane_tree == (PaneTree::Leaf {
                pane_id: pane,
            }),
            None => forall|t: int|
                from <= t < tabs.len() ==> (#[trigger] tabs[t]).pane_tree != (PaneTree::Leaf {
                    pane_id: pane,
                }),
        },
    decreases tabs.len() - from,
{
    if from < tabs.len() && tabs[from].pane_tree != (PaneTree::Leaf { pane_id: pane }) {
        lemma_leaf_tab_valid(tabs, pane, from + 1);
    }
}

pub proof fn lemma_ok_after_pane_closed(m: SessionModel, id: PaneId)
    requires
        session_ok(m),
    ensures
        session_ok(pane_closed(m, id)),
{
    let ws = m.layout.workspaces[0];
    lemma_leaf_tab_valid(ws.tabs, id, 0);
    lemma_panes_without(m.panes, id);
    lemma_logs_without(m.logs, id);
    let n = pane_closed(m, id);
    match leaf_tab_from(ws.tabs, id, 0) {
        Some(t) => {
            let tabs = ws.tabs.remove(t);
            let active = clamp_active(ws.active_tab, tabs.len());
            assert forall|p: PaneId|
                #![trigger layout_count(n.layout, p)]
                layout_count(n.layout, p) + leaf_count(ws.tabs[t].pane_tree, p) == layout_count(
                    m.layout,
                    p,
                ) by {
                lemma_tabs_remove_count(ws.tabs, t, p);
                lemma_with_tabs_count(m.layout, 0, tabs, active, p);
            }
            assert forall|p: PaneId| #[trigger] registered(n.panes, p) implies layout_count(
                n.layout,
                p,
            ) == 1 by {
                assert(registered(m.panes, p) && p != id);
            }
            assert(active_ok(ws));
            lemma_tab_ids_from(
                ws.tabs,
                tabs,
                |i: int|
                    if i < t {
                        i
                    } else {
                        i + 1
                    },
            );
            lemma_ok_with_tabs(m, n, 0, tabs, active);
        },
        None => {
            lemma_ok_after_pane_gone(m, id);
        },
    }
}

pub proof fn lemma_ok_after_promotion(m: SessionModel, id: PaneId)
    requires
        session_ok(m),
        !registered(m.panes, id),
    ensures
        session_ok(sibling_promoted(m, id)),
{
    let n = sibling_promoted(m, id);
    lemma_find_pane_valid(m.layout.workspaces, id, 0);
    if let Some((w, t)) = find_pane(m.layout, id) {
        let ws = m.layout.workspaces[w];
        let tree = ws.tabs[t].pane_tree;
        if let Some(rest) = tree_without(tree, id) {
            let tab = TabModel { pane_tree: rest, ..ws.tabs[t] };
            assert forall|p: PaneId| #[trigger]
                layout_count(n.layout, p) + (if p == id {
                    1nat
                } else {
                    0
                }) == layout_count(m.layout, p) by {
                lemma_without_count(tree, id, p);
                lemma_tabs_update_count(ws.tabs, t, tab, p);
                lemma_with_tabs_count(m.layout, w, ws.tabs.update(t, tab), ws.active_tab, p);
            }
            assert forall|p: PaneId| #[trigger] registered(n.panes, p) implies layout_count(
                n.layout,
                p,
            ) == 1 by {
                assert(registered(m.panes, p));
            }
            assert(active_ok(ws));
            lemma_tab_ids_from(ws.tabs, ws.tabs.update(t, tab), |i: int| i);
            lemma_ok_with_tabs(m, n, w, ws.tabs.update(t, tab), ws.active_tab);
        }
    }
}

pub proof fn lemma_tabs_ratio_count(tabs: Seq<TabModel>, target: PaneId, ratio: Ratio, p: PaneId)
    ensures
        tabs_count(tabs_with_ratio(tabs, target, ratio), p) == tabs_count(tabs, p),
{
    let after = tabs_with_ratio(tabs, target, ratio);
    assert forall|i: int| 0 <= i < tabs.len() implies #[trigger] tab_counts(after, p)[i]
        == tab_counts(tabs, p)[i] by {
        lemma_ratio_count(tabs[i].pane_tree, target, ratio, p);
    }
    assert(tab_counts(after, p) =~= tab_counts(tabs, p));
}

pub proof fn lemma_ok_after_ratio(m: SessionModel, target: PaneId, ratio: Ratio)
    requires
        session_ok(m),
    ensures
        session_ok(SessionModel { layout: layout_with_ratio(m.layout, target, ratio), ..m }),
{
    let n = SessionModel { layout: layout_with_ratio(m.layout, target, ratio), ..m };
    assert forall|p: PaneId| #[trigger] layout_count(n.layout, p) == layout_count(m.layout, p) by {
        assert forall|w: int| 0 <= w < m.layout.workspaces.len() implies #[trigger] workspace_counts(
            n.layout.workspaces,
            p,
        )[w] == workspace_counts(m.layout.workspaces, p)[w] by {
            lemma_tabs_ratio_count(m.layout.workspaces[w].tabs, target, ratio, p);
        }
        assert(workspace_counts(n.layout.workspaces, p) =~= workspace_counts(
            m.layout.workspaces,
            p,
        ));
    }
    assert forall|w: int| 0 <= w < n.layout.workspaces.len() implies active_ok(
        #[trigger] n.layout.workspaces[w],
    ) by {
        assert(active_ok(m.layout.workspaces[w]));
    }
    assert forall|w: int| 0 <= w < n.layout.workspaces.len() implies tab_ids(
        (#[trigger] n.layout.workspaces[w]).tabs,
    ) == tab_ids(m.layout.workspaces[w].tabs) by {
        assert(tab_ids(n.layout.workspaces[w].tabs) =~= tab_ids(m.layout.workspaces[w].tabs));
    }
    lemma_tabs_distinct_kept(m.layout, n.layout);
}

/// Where every workspace keeps the ids of its tabs, they stay distinct.
pub proof fn lemma_tabs_distinct_kept(before: LayoutModel, after: LayoutModel)
    requires
        tabs_distinct(before),
        after.workspaces.len() == before.workspaces.len(),
        forall|w: int|
            0 <= w < after.workspaces.len() ==> tab_ids((#[trigger] after.workspaces[w]).tabs)
                == tab_ids(before.workspaces[w].tabs),
    ensures
        tabs_distinct(after),
{
    assert forall|w: int| 0 <= w < after.workspaces.len() implies tab_ids(
        (#[trigger] after.workspaces[w]).tabs,
    ).no_duplicates() by {
        assert(tab_ids(before.workspaces[w].tabs).no_duplicates());
    }
    assert forall|w: int, v: int, id: Uuid| #[trigger]
        has_tab(after, w, id) && #[trigger] has_tab(after, v, id) implies w == v by {
        assert(tab_ids(after.workspaces[w].tabs) == tab_ids(before.workspaces[w].tabs));
        assert(tab_ids(after.workspaces[v].tabs) == tab_ids(before.workspaces[v].tabs));
        assert(has_tab(before, w, id) && has_tab(before, v, id));
    }
}

pub proof fn lemma_ok_after_move(m: SessionModel, w: int, from: int, to: int)
    requires
        session_ok(m),
        0 <= w < m.layout.workspaces.len(),
        0 <= from < m.layout.workspaces[w].tabs.len(),
        0 <= to < m.layout.workspaces[w].tabs.len(),
        m.layout.workspaces[w].tabs.len() <= usize::MAX,
    ensures
        session_ok(
            SessionModel {
                layout: LayoutModel {
                    workspaces: m.layout.workspaces.update(
                        w,
                        tab_moved(m.layout.workspaces[w], from, to),
                    ),
                    ..m.layout
                },
                ..m
            },
        ),
{
    let ws = m.layout.workspaces[w];
    let moved = tab_moved(ws, from, to);
    let n = SessionModel {
        layout: LayoutModel { workspaces: m.layout.workspaces.update(w, moved), ..m.layout },
        ..m
    };
    assert(n.layout == with_tabs(m.layout, w, moved.tabs, moved.active_tab));
    assert forall|p: PaneId| #[trigger] layout_count(n.layout, p) == layout_count(m.layout, p) by {
        lemma_tabs_remove_count(ws.tabs, from, p);
        lemma_tabs_insert_count(ws.tabs.remove(from), to, ws.tabs[from], p);
        lemma_with_tabs_count(m.layout, w, moved.tabs, moved.active_tab, p);
    }
    assert(active_ok(ws));
    lemma_moved_active(ws, from, to);
    lemma_tab_ids_from(
        ws.tabs,
        moved.tabs,
        |i: int|
            if i == to {
                from
            } else {
                let r = if i < to {
                    i
                } else {
                    i - 1
                };
                if r < from {
                    r
                } else {
                    r + 1
                }
            },
    );
    lemma_ok_with_tabs(m, n, w, moved.tabs, moved.active_tab);
}

/// After a move the active index names the tab that was active.
pub proof fn lemma_moved_active(ws: WorkspaceModel, from: int, to: int)
    requires
        active_ok(ws),
        0 <= from < ws.tabs.len(),
        0 <= to < ws.tabs.len(),
        ws.tabs.len() <= usize::MAX,
    ensures
        tab_index(tab_moved(ws, from, to).tabs, ws.tabs[ws.active_tab as int].id) is Some,
        tab_moved(ws, from, to).active_tab < tab_moved(ws, from, to).tabs.len(),
        tab_moved(ws, from, to).tabs[tab_moved(ws, from, to).active_tab as int].id
            == ws.tabs[ws.active_tab as int].id,
        tab_moved(ws, from, to).active_tab as int == tab_index(
            tab_moved(ws, from, to).tabs,
            ws.tabs[ws.active_tab as int].id,
        )->0,
{
    let a = ws.active_tab as int;
    let id = ws.tabs[a].id;
    let tabs = ws.tabs.remove(from).insert(to, ws.tabs[from]);
    let k = if a == from {
        to
    } else {
        let r = if a < from {
            a
        } else {
            a - 1
        };
        if r < to {
            r
        } else {
            r + 1
        }
    };
    assert(tabs[k] == ws.tabs[a]);
    assert(tab_ids(tabs)[k] == id);
    lemma_first_is(tab_ids(tabs), id);
}

pub proof fn lemma_ok_after_new_workspace(m: SessionModel, ws: WorkspaceModel)
    requires
        session_ok(m),
        ws.tabs.len() == 0,
        ws.active_tab == 0,
    ensures
        session_ok(
            SessionModel {
                layout: LayoutModel { workspaces: m.layout.workspaces.push(ws), ..m.layout },
                ..m
            },
        ),
{
    let n = SessionModel {
        layout: LayoutModel { workspaces: m.layout.workspaces.push(ws), ..m.layout },
        ..m
    };
    assert forall|p: PaneId| #[trigger] layout_count(n.layout, p) == layout_count(m.layout, p) by {
        lemma_sum_zero(tab_counts(ws.tabs, p));
        lemma_sum_push(workspace_counts(m.layout.workspaces, p), 0);
        assert(workspace_counts(n.layout.workspaces, p) =~= workspace_counts(
            m.layout.workspaces,
            p,
        ).push(0));
    }
    assert forall|w: int| 0 <= w < n.layout.workspaces.len() implies active_ok(
        #[trigger] n.layout.workspaces[w],
    ) by {
        if w < m.layout.workspaces.len() {
            assert(active_ok(m.layout.workspaces[w]));
        }
    }
    assert forall|w: int| 0 <= w < n.layout.workspaces.len() implies tab_ids(
        (#[trigger] n.layout.workspaces[w]).tabs,
    ).no_duplicates() by {
        if w < m.layout.workspaces.len() {
            assert(tab_ids(m.layout.workspaces[w].tabs).no_duplicates());
        }
    }
    assert forall|w: int, v: int, id: Uuid| #[trigger]
        has_tab(n.layout, w, id) && #[trigger] has_tab(n.layout, v, id) implies w == v by {
        assert(has_tab(m.layout, w, id) && has_tab(m.layout, v, id));
    }
}

/// A new empty workspace takes no id of a pane or a tab.
pub proof fn lemma_fresh_after_new_workspace(
    m: SessionModel,
    ws: WorkspaceModel,
    id: PaneId,
    tab_id: Uuid,
)
    requires
        is_fresh(m, id),
        is_fresh_tab(m, tab_id),
        ws.tabs.len() == 0,
    ensures
        forall|w: int|
            !#[trigger] has_tab(
                LayoutModel { workspaces: m.layout.workspaces.push(ws), ..m.layout },
                w,
                tab_id,
            ),
        layout_count(
            LayoutModel { workspaces: m.layout.workspaces.push(ws), ..m.layout },
            id,
        ) == 0,
{
    let layout = LayoutModel { workspaces: m.layout.workspaces.push(ws), ..m.layout };
    lemma_sum_zero(tab_counts(ws.tabs, id));
    lemma_sum_push(workspace_counts(m.layout.workspaces, id), 0);
    assert(workspace_counts(layout.workspaces, id) =~= workspace_counts(
        m.layout.workspaces,
        id,
    ).push(0));
    assert forall|w: int| !#[trigger] has_tab(layout, w, tab_id) by {
        assert(!has_tab(m.layout, w, tab_id));
    }
}

pub proof fn lemma_ok_after_rename(m: SessionModel, w: int, name: Seq<char>)
    requires
        session_ok(m),
        0 <= w < m.layout.workspaces.len(),
    ensures
        session_ok(
            SessionModel {
                layout: LayoutModel {
                    workspaces: m.layout.workspaces.update(
                        w,
                        WorkspaceModel { name, ..m.layout.workspaces[w] },
                    ),
                    ..m.layout
                },
                ..m
            },
        ),
{
    let n = SessionModel {
        layout: LayoutModel {
            workspaces: m.layout.workspaces.update(
                w,
                WorkspaceModel { name, ..m.layout.workspaces[w] },
            ),
            ..m.layout
        },
        ..m
    };
    assert forall|p: PaneId| #[trigger] layout_count(n.layout, p) == layout_count(m.layout, p) by {
        assert(workspace_counts(n.layout.workspaces, p) =~= workspace_counts(
            m.layout.workspaces,
            p,
        ));
    }
    assert forall|v: int| 0 <= v < n.layout.workspaces.len() implies active_ok(
        #[trigger] n.layout.workspaces[v],
    ) by {
        assert(active_ok(m.layout.workspaces[v]));
    }
    lemma_tabs_distinct_kept(m.layout, n.layout);
}

pub proof fn lemma_ok_after_active_tab(m: SessionModel, w: int, active: usize)
    requires
        session_ok(m),
        0 <= w < m.layout.workspaces.len(),
        active < m.layout.workspaces[w].tabs.len(),
    ensures
        session_ok(
            SessionModel {
                layout: with_tabs(m.layout, w, m.layout.workspaces[w].tabs, active),
                ..m
            },
        ),
{
    let tabs = m.layout.workspaces[w].tabs;
    let n = SessionModel { layout: with_tabs(m.layout, w, tabs, active), ..m };
    assert forall|p: PaneId| #[trigger] layout_count(n.layout, p) == layout_count(m.layout, p) by {
        lemma_with_tabs_count(m.layout, w, tabs, active, p);
    }
    assert(tab_ids(m.layout.workspaces[w].tabs).no_duplicates());
    lemma_ok_with_tabs(m, n, w, tabs, active);
}

/// The panes of some tabs are those that stand in one of them.
pub proof fn lemma_tabs_leaves(tabs: Seq<TabModel>, p: PaneId)
    ensures
        tabs_count(tabs, p) > 0 <==> tabs_leaves(tabs).contains(p),
    decreases tabs.len(),
{
    if tabs.len() == 0 {
        lemma_sum_zero(tab_counts(tabs, p));
    } else {
        let rest = tabs.drop_last();
        lemma_tabs_leaves(rest, p);
        lemma_tabs_push_count(rest, tabs.last(), p);
        assert(rest.push(tabs.last()) =~= tabs);
        lemma_leaf_count(tabs.last().pane_tree, p);
        let a = tabs_leaves(rest);
        let b = leaves(tabs.last().pane_tree);
        assert(tabs_leaves(tabs) == a + b);
        if a.contains(p) {
            let k = choose|k: int| 0 <= k < a.len() && a[k] == p;
            assert((a + b)[k] == p);
        }
        if b.contains(p) {
            let k = choose|k: int| 0 <= k < b.len() && b[k] == p;
            assert((a + b)[a.len() + k] == p);
        }
        if (a + b).contains(p) {
            let k = choose|k: int| 0 <= k < (a + b).len() && (a + b)[k] == p;
            if k < a.len() {
                assert(a[k] == p);
            } else {
                assert(b[k - a.len()] == p);
            }
        }
    }
}

pub proof fn lemma_ok_after_delete(m: SessionModel, w: int)
    requires
        session_ok(m),
        0 <= w < m.layout.workspaces.len(),
        m.layout.workspaces.len() > 1,
    ensures
        session_ok(workspace_deleted(m, w)),
{
    let n = workspace_deleted(m, w);
    let ws = m.layout.workspaces[w];
    let remaining = m.layout.workspaces.remove(w);
    let mid = SessionModel {
        layout: LayoutModel {
            workspaces: remaining,
            active_workspace: active_after_delete(
                m.layout.active_workspace,
                w,
                (m.layout.workspaces.len() - 1) as nat,
            ),
        },
        ..m
    };
    lemma_panes_gone(mid, tabs_leaves(ws.tabs));
    assert(n.layout == mid.layout);
    assert forall|p: PaneId| #[trigger]
        layout_count(n.layout, p) + tabs_count(ws.tabs, p) == layout_count(m.layout, p) by {
        lemma_sum_remove(workspace_counts(m.layout.workspaces, p), w);
        assert(workspace_counts(n.layout.workspaces, p) =~= workspace_counts(
            m.layout.workspaces,
            p,
        ).remove(w));
    }
    assert forall|p: PaneId| #[trigger] registered(n.panes, p) implies layout_count(n.layout, p)
        == 1 by {
        lemma_tabs_leaves(ws.tabs, p);
        assert(registered(m.panes, p));
    }
    assert forall|v: int| 0 <= v < n.layout.workspaces.len() implies active_ok(
        #[trigger] n.layout.workspaces[v],
    ) by {
        if v < w {
            assert(active_ok(m.layout.workspaces[v]));
        } else {
            assert(active_ok(m.layout.workspaces[v + 1]));
        }
    }
    let from = |v: int|
        if v < w {
            v
        } else {
            v + 1
        };
    assert forall|v: int| 0 <= v < n.layout.workspaces.len() implies tab_ids(
        (#[trigger] n.layout.workspaces[v]).tabs,
    ).no_duplicates() by {
        assert(n.layout.workspaces[v] == m.layout.workspaces[from(v)]);
    }
    assert forall|u: int, v: int, id: Uuid| #[trigger]
        has_tab(n.layout, u, id) && #[trigger] has_tab(n.layout, v, id) implies u == v by {
        assert(n.layout.workspaces[u] == m.layout.workspaces[from(u)]);
        assert(n.layout.workspaces[v] == m.layout.workspaces[from(v)]);
        assert(has_tab(m.layout, from(u), id) && has_tab(m.layout, from(v), id));
    }
}

} // verus!

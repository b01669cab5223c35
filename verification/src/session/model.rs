//! A session as a mathematical value, what holds of every session, and the
//! steps by which it changes.

use vstd::prelude::*;

use crate::ids::{PaneId, Uuid};
use crate::ratio::Ratio;
use crate::seqs::{
    lemma_first_is, lemma_sum_bounds_element, lemma_sum_insert, lemma_sum_positive, lemma_sum_push,
    lemma_sum_remove, lemma_sum_update, sum,
};
use crate::session::byte_log::LogModel;
use crate::session::events::EventModel;
use crate::session::layout::{
    find_pane, find_tab, leaves, lemma_find_pane_valid, lemma_find_tab_valid, lemma_has_split,
    tab_ids, tab_index, tree_has, tree_with_ratio, tree_with_split, tree_without, LayoutModel,
    PaneTree, TabModel, WorkspaceModel,
};

verus! {

/// A pane as a mathematical value.
pub ghost struct PaneModel {
    pub id: PaneId,
    pub pid: Option<u32>,
    pub cwd: Seq<char>,
    pub title: Seq<char>,
    pub rows: u16,
    pub cols: u16,
}

/// A session: its panes in the order of their creation, its layout, the byte
/// logs by pane, and the events that wait for subscribers.
pub ghost struct SessionModel {
    pub panes: Seq<PaneModel>,
    pub layout: LayoutModel,
    pub pinned: bool,
    pub logs: Seq<(PaneId, LogModel)>,
    pub ring_kb: u32,
    pub max_mb: u32,
    pub events: Seq<EventModel>,
}

// ---------------------------------------------------------------------------
// Panes of a layout, counted
// ---------------------------------------------------------------------------
/// How often a pane stands in a tree.
pub open spec fn leaf_count(t: PaneTree, pane: PaneId) -> nat
    decreases t,
{
    match t {
        PaneTree::Leaf { pane_id } => if pane_id == pane {
            1
        } else {
            0
        },
        PaneTree::Split { first, second, .. } => leaf_count(*first, pane) + leaf_count(
            *second,
            pane,
        ),
    }
}

pub open spec fn tab_counts(tabs: Seq<TabModel>, pane: PaneId) -> Seq<nat> {
    Seq::new(tabs.len(), |i: int| leaf_count(tabs[i].pane_tree, pane))
}

/// How often a pane stands in the trees of some tabs.
pub open spec fn tabs_count(tabs: Seq<TabModel>, pane: PaneId) -> nat {
    sum(tab_counts(tabs, pane))
}

pub open spec fn workspace_counts(workspaces: Seq<WorkspaceModel>, pane: PaneId) -> Seq<nat> {
    Seq::new(workspaces.len(), |i: int| tabs_count(workspaces[i].tabs, pane))
}

/// How often a pane stands in a layout.
pub open spec fn layout_count(layout: LayoutModel, pane: PaneId) -> nat {
    sum(workspace_counts(layout.workspaces, pane))
}

pub proof fn lemma_leaf_count(t: PaneTree, pane: PaneId)
    ensures
        leaf_count(t, pane) > 0 <==> tree_has(t, pane),
    decreases t,
{
    match t {
        PaneTree::Leaf { pane_id } => {
            assert(leaves(t)[0] == pane_id);
        },
        PaneTree::Split { first, second, .. } => {
            lemma_leaf_count(*first, pane);
            lemma_leaf_count(*second, pane);
            lemma_has_split(t, pane);
        },
    }
}

pub proof fn lemma_split_count(
    t: PaneTree,
    target: PaneId,
    new_pane: PaneId,
    direction: Seq<char>,
    ratio: Ratio,
    pane: PaneId,
)
    requires
        tree_has(t, target),
    ensures
        leaf_count(tree_with_split(t, target, new_pane, direction, ratio), pane) == leaf_count(
            t,
            pane,
        ) + (if pane == new_pane {
            1nat
        } else {
            0
        }),
    decreases t,
{
    match t {
        PaneTree::Leaf { pane_id } => {
            assert(leaves(t)[0] == pane_id);
            reveal_with_fuel(leaf_count, 3);
        },
        PaneTree::Split { first, second, .. } => {
            lemma_has_split(t, target);
            if tree_has(*first, target) {
                lemma_split_count(*first, target, new_pane, direction, ratio, pane);
            } else {
                lemma_split_count(*second, target, new_pane, direction, ratio, pane);
            }
        },
    }
}

pub proof fn lemma_ratio_count(t: PaneTree, target: PaneId, ratio: Ratio, pane: PaneId)
    ensures
        leaf_count(tree_with_ratio(t, target, ratio), pane) == leaf_count(t, pane),
    decreases t,
{
    match t {
        PaneTree::Leaf { .. } => {},
        PaneTree::Split { first, second, .. } => {
            lemma_ratio_count(*first, target, ratio, pane);
            lemma_ratio_count(*second, target, ratio, pane);
        },
    }
}

pub proof fn lemma_without_count(t: PaneTree, target: PaneId, pane: PaneId)
    requires
        tree_has(t, target),
    ensures
        (match tree_without(t, target) {
            Some(rest) => leaf_count(rest, pane),
            None => 0,
        }) + (if pane == target {
            1nat
        } else {
            0
        }) == leaf_count(t, pane),
    decreases t,
{
    match t {
        PaneTree::Leaf { pane_id } => {
            assert(leaves(t)[0] == pane_id);
        },
        PaneTree::Split { first, second, .. } => {
            lemma_has_split(t, target);
            if tree_has(*first, target) {
                lemma_without_count(*first, target, pane);
            } else {
                lemma_without_count(*second, target, pane);
            }
        },
    }
}

// ---------------------------------------------------------------------------
// Layout steps
// ---------------------------------------------------------------------------
/// A layout with other tabs in one workspace.
pub open spec fn with_tabs(layout: LayoutModel, w: int, tabs: Seq<TabModel>, active: usize) -> LayoutModel {
    LayoutModel {
        workspaces: layout.workspaces.update(
            w,
            WorkspaceModel { tabs, active_tab: active, ..layout.workspaces[w] },
        ),
        ..layout
    }
}

/// The active index moved onto the last tab where it lies behind it.
pub open spec fn clamp_active(active: usize, tabs: nat) -> usize {
    if active >= tabs && tabs > 0 {
        (tabs - 1) as usize
    } else {
        active
    }
}

/// A layout with one more tab at the end of a workspace.
pub open spec fn with_new_tab(layout: LayoutModel, w: int, tab: TabModel) -> LayoutModel {
    with_tabs(layout, w, layout.workspaces[w].tabs.push(tab), layout.workspaces[w].active_tab)
}

/// A layout without one tab.
pub open spec fn without_tab(layout: LayoutModel, w: int, t: int) -> LayoutModel {
    let tabs = layout.workspaces[w].tabs.remove(t);
    with_tabs(layout, w, tabs, clamp_active(layout.workspaces[w].active_tab, tabs.len()))
}

/// A layout with another tree in one tab.
pub open spec fn with_tree(layout: LayoutModel, w: int, t: int, tree: PaneTree) -> LayoutModel {
    let ws = layout.workspaces[w];
    with_tabs(
        layout,
        w,
        ws.tabs.update(t, TabModel { pane_tree: tree, ..ws.tabs[t] }),
        ws.active_tab,
    )
}

pub proof fn lemma_with_tabs_count(
    layout: LayoutModel,
    w: int,
    tabs: Seq<TabModel>,
    active: usize,
    pane: PaneId,
)
    requires
        0 <= w < layout.workspaces.len(),
    ensures
        layout_count(with_tabs(layout, w, tabs, active), pane) + tabs_count(
            layout.workspaces[w].tabs,
            pane,
        ) == layout_count(layout, pane) + tabs_count(tabs, pane),
{
    let counts = workspace_counts(layout.workspaces, pane);
    let after = workspace_counts(with_tabs(layout, w, tabs, active).workspaces, pane);
    lemma_sum_update(counts, w, tabs_count(tabs, pane));
    assert(after =~= counts.update(w, tabs_count(tabs, pane)));
}

pub proof fn lemma_tabs_push_count(tabs: Seq<TabModel>, tab: TabModel, pane: PaneId)
    ensures
        tabs_count(tabs.push(tab), pane) == tabs_count(tabs, pane) + leaf_count(
            tab.pane_tree,
            pane,
        ),
{
    lemma_sum_push(tab_counts(tabs, pane), leaf_count(tab.pane_tree, pane));
    assert(tab_counts(tabs.push(tab), pane) =~= tab_counts(tabs, pane).push(
        leaf_count(tab.pane_tree, pane),
    ));
}

pub proof fn lemma_tabs_remove_count(tabs: Seq<TabModel>, t: int, pane: PaneId)
    requires
        0 <= t < tabs.len(),
    ensures
        tabs_count(tabs.remove(t), pane) + leaf_count(tabs[t].pane_tree, pane) == tabs_count(
            tabs,
            pane,
        ),
{
    lemma_sum_remove(tab_counts(tabs, pane), t);
    assert(tab_counts(tabs.remove(t), pane) =~= tab_counts(tabs, pane).remove(t));
}

pub proof fn lemma_tabs_insert_count(tabs: Seq<TabModel>, t: int, tab: TabModel, pane: PaneId)
    requires
        0 <= t <= tabs.len(),
    ensures
        tabs_count(tabs.insert(t, tab), pane) == tabs_count(tabs, pane) + leaf_count(
            tab.pane_tree,
            pane,
        ),
{
    lemma_sum_insert(tab_counts(tabs, pane), t, leaf_count(tab.pane_tree, pane));
    assert(tab_counts(tabs.insert(t, tab), pane) =~= tab_counts(tabs, pane).insert(
        t,
        leaf_count(tab.pane_tree, pane),
    ));
}

pub proof fn lemma_tabs_update_count(tabs: Seq<TabModel>, t: int, tab: TabModel, pane: PaneId)
    requires
        0 <= t < tabs.len(),
    ensures
        tabs_count(tabs.update(t, tab), pane) + leaf_count(tabs[t].pane_tree, pane) == tabs_count(
            tabs,
            pane,
        ) + leaf_count(tab.pane_tree, pane),
{
    lemma_sum_update(tab_counts(tabs, pane), t, leaf_count(tab.pane_tree, pane));
    assert(tab_counts(tabs.update(t, tab), pane) =~= tab_counts(tabs, pane).update(
        t,
        leaf_count(tab.pane_tree, pane),
    ));
}

/// A pane stands in a layout at least as often as in any of its tabs.
pub proof fn lemma_tab_in_layout_count(layout: LayoutModel, w: int, t: int, pane: PaneId)
    requires
        0 <= w < layout.workspaces.len(),
        0 <= t < layout.workspaces[w].tabs.len(),
    ensures
        leaf_count(layout.workspaces[w].tabs[t].pane_tree, pane) <= tabs_count(
            layout.workspaces[w].tabs,
            pane,
        ),
        tabs_count(layout.workspaces[w].tabs, pane) <= layout_count(layout, pane),
{
    lemma_sum_bounds_element(tab_counts(layout.workspaces[w].tabs, pane), t);
    lemma_sum_bounds_element(workspace_counts(layout.workspaces, pane), w);
}

/// A pane is found in a layout exactly when it stands there.
pub proof fn lemma_find_pane_count(layout: LayoutModel, pane: PaneId)
    ensures
        find_pane(layout, pane) is Some <==> layout_count(layout, pane) > 0,
{
    lemma_find_pane_valid(layout.workspaces, pane, 0);
    match find_pane(layout, pane) {
        Some((w, t)) => {
            lemma_leaf_count(layout.workspaces[w].tabs[t].pane_tree, pane);
            lemma_tab_in_layout_count(layout, w, t, pane);
        },
        None => {
            if layout_count(layout, pane) > 0 {
                lemma_sum_positive(workspace_counts(layout.workspaces, pane));
                let w = choose|w: int|
                    0 <= w < layout.workspaces.len() && workspace_counts(layout.workspaces, pane)[w]
                        > 0;
                let tabs = layout.workspaces[w].tabs;
                lemma_sum_positive(tab_counts(tabs, pane));
                let t = choose|t: int| 0 <= t < tabs.len() && tab_counts(tabs, pane)[t] > 0;
                lemma_leaf_count(layout.workspaces[w].tabs[t].pane_tree, pane);
                assert(tree_has(layout.workspaces[w].tabs[t].pane_tree, pane));
            }
        },
    }
}

// ---------------------------------------------------------------------------
// The registry
// ---------------------------------------------------------------------------
/// The ids of the panes, in the order of their creation.
pub open spec fn pane_ids(panes: Seq<PaneModel>) -> Seq<PaneId> {
    Seq::new(panes.len(), |i: int| panes[i].id)
}

/// The panes that have a byte log.
pub open spec fn log_ids(logs: Seq<(PaneId, LogModel)>) -> Seq<PaneId> {
    Seq::new(logs.len(), |i: int| logs[i].0)
}

/// Whether a pane is alive.
pub open spec fn registered(panes: Seq<PaneModel>, id: PaneId) -> bool {
    pane_ids(panes).contains(id)
}

/// The record of a live pane.
pub open spec fn pane_record(panes: Seq<PaneModel>, id: PaneId) -> Option<PaneModel> {
    match pane_ids(panes).index_of_first(id) {
        Some(i) => Some(panes[i]),
        None => None,
    }
}

/// The byte log of a pane.
pub open spec fn log_of(logs: Seq<(PaneId, LogModel)>, id: PaneId) -> Option<LogModel> {
    match log_ids(logs).index_of_first(id) {
        Some(i) => Some(logs[i].1),
        None => None,
    }
}

/// The panes without one of them.
pub open spec fn panes_without(panes: Seq<PaneModel>, id: PaneId) -> Seq<PaneModel> {
    match pane_ids(panes).index_of_first(id) {
        Some(i) => panes.remove(i),
        None => panes,
    }
}

/// The byte logs without that of one pane.
pub open spec fn logs_without(logs: Seq<(PaneId, LogModel)>, id: PaneId) -> Seq<
    (PaneId, LogModel),
> {
    match log_ids(logs).index_of_first(id) {
        Some(i) => logs.remove(i),
        None => logs,
    }
}

/// No element twice.
pub open spec fn distinct(ids: Seq<PaneId>) -> bool {
    forall|i: int, j: int| 0 <= i < j < ids.len() ==> ids[i] != ids[j]
}

/// Whether a workspace has a tab with an id.
pub open spec fn has_tab(layout: LayoutModel, w: int, id: Uuid) -> bool {
    0 <= w < layout.workspaces.len() && tab_ids(layout.workspaces[w].tabs).contains(id)
}

/// No two tabs with the same id, neither in one workspace nor in two.
pub open spec fn tabs_distinct(layout: LayoutModel) -> bool {
    &&& forall|w: int|
        0 <= w < layout.workspaces.len() ==> tab_ids(
            (#[trigger] layout.workspaces[w]).tabs,
        ).no_duplicates()
    &&& forall|w: int, v: int, id: Uuid| #[trigger]
        has_tab(layout, w, id) && #[trigger] has_tab(layout, v, id) ==> w == v
}

/// An active index that names a tab, or zero where there is none.
pub open spec fn active_ok(ws: WorkspaceModel) -> bool {
    ws.active_tab < ws.tabs.len() || (ws.tabs.len() == 0 && ws.active_tab == 0)
}

/// What holds of every session: there is a workspace and the active one
/// exists; active tabs exist; tab ids, pane ids and log ids are unique; rings
/// stay within their capacity; no pane stands in the layout twice, and every
/// live pane stands in it.
pub open spec fn session_ok(m: SessionModel) -> bool {
    &&& m.layout.active_workspace < m.layout.workspaces.len()
    &&& forall|w: int|
        0 <= w < m.layout.workspaces.len() ==> active_ok(#[trigger] m.layout.workspaces[w])
    &&& tabs_distinct(m.layout)
    &&& distinct(pane_ids(m.panes))
    &&& distinct(log_ids(m.logs))
    &&& forall|i: int| 0 <= i < m.logs.len() ==> (#[trigger] m.logs[i]).1.ok()
    &&& forall|p: PaneId| #[trigger] layout_count(m.layout, p) <= 1
    &&& forall|p: PaneId| #[trigger] registered(m.panes, p) ==> layout_count(m.layout, p) == 1
}

/// A pane id that no pane has or had a place for.
pub open spec fn is_fresh(m: SessionModel, id: PaneId) -> bool {
    !registered(m.panes, id) && layout_count(m.layout, id) == 0
}

/// A tab id that no tab has.
pub open spec fn is_fresh_tab(m: SessionModel, id: Uuid) -> bool {
    forall|w: int| !#[trigger] has_tab(m.layout, w, id)
}

pub proof fn lemma_fresh_tab(m: SessionModel, id: Uuid)
    ensures
        is_fresh_tab(m, id) <==> find_tab(m.layout, id) is None,
{
    lemma_find_tab_valid(m.layout.workspaces, id, 0);
    match find_tab(m.layout, id) {
        Some((w, t)) => {
            assert(tab_ids(m.layout.workspaces[w].tabs)[t] == id);
            assert(has_tab(m.layout, w, id));
        },
        None => {
            assert forall|w: int| !#[trigger] has_tab(m.layout, w, id) by {
                if has_tab(m.layout, w, id) {
                    let ids = tab_ids(m.layout.workspaces[w].tabs);
                    let t = choose|t: int| 0 <= t < ids.len() && ids[t] == id;
                    assert(m.layout.workspaces[w].tabs[t].id == id);
                }
            }
        },
    }
}

pub proof fn lemma_remove_distinct(ids: Seq<PaneId>, i: int)
    requires
        distinct(ids),
        0 <= i < ids.len(),
    ensures
        distinct(ids.remove(i)),
        forall|p: PaneId| #[trigger]
            ids.remove(i).contains(p) <==> ids.contains(p) && p != ids[i],
{
    let rest = ids.remove(i);
    assert forall|p: PaneId| #[trigger] rest.contains(p) <==> ids.contains(p) && p != ids[i] by {
        if rest.contains(p) {
            let k = choose|k: int| 0 <= k < rest.len() && rest[k] == p;
            let j = if k < i {
                k
            } else {
                k + 1
            };
            assert(ids[j] == p);
        }
        if ids.contains(p) && p != ids[i] {
            let j = choose|j: int| 0 <= j < ids.len() && ids[j] == p;
            let k = if j < i {
                j
            } else {
                j - 1
            };
            assert(rest[k] == p);
        }
    }
}

pub proof fn lemma_panes_without(panes: Seq<PaneModel>, id: PaneId)
    requires
        distinct(pane_ids(panes)),
    ensures
        distinct(pane_ids(panes_without(panes, id))),
        forall|p: PaneId| #[trigger]
            registered(panes_without(panes, id), p) <==> registered(panes, p) && p != id,
{
    let ids = pane_ids(panes);
    lemma_first_is(ids, id);
    match ids.index_of_first(id) {
        Some(i) => {
            lemma_remove_distinct(ids, i);
            assert(pane_ids(panes.remove(i)) =~= ids.remove(i));
        },
        None => {},
    }
}

pub proof fn lemma_logs_without(logs: Seq<(PaneId, LogModel)>, id: PaneId)
    requires
        distinct(log_ids(logs)),
        forall|i: int| 0 <= i < logs.len() ==> (#[trigger] logs[i]).1.ok(),
    ensures
        distinct(log_ids(logs_without(logs, id))),
        !log_ids(logs_without(logs, id)).contains(id),
        forall|i: int|
            0 <= i < logs_without(logs, id).len() ==> (#[trigger] logs_without(logs, id)[i]).1.ok(),
        forall|p: PaneId|
            p != id ==> #[trigger] log_ids(logs_without(logs, id)).contains(p) == log_ids(
                logs,
            ).contains(p),
{
    let ids = log_ids(logs);
    lemma_first_is(ids, id);
    match ids.index_of_first(id) {
        Some(i) => {
            lemma_remove_distinct(ids, i);
            assert(log_ids(logs.remove(i)) =~= ids.remove(i));
        },
        None => {},
    }
}

pub proof fn lemma_push_distinct(ids: Seq<PaneId>, id: PaneId)
    requires
        distinct(ids),
        !ids.contains(id),
    ensures
        distinct(ids.push(id)),
        forall|p: PaneId| #[trigger] ids.push(id).contains(p) <==> ids.contains(p) || p == id,
{
    let all = ids.push(id);
    assert forall|i: int, j: int| 0 <= i < j < all.len() implies all[i] != all[j] by {
        if j == ids.len() {
            assert(ids.contains(ids[i]));
        }
    }
    assert forall|p: PaneId| #[trigger] all.contains(p) <==> ids.contains(p) || p == id by {
        if ids.contains(p) {
            let k = choose|k: int| 0 <= k < ids.len() && ids[k] == p;
            assert(all[k] == p);
        }
        if p == id {
            assert(all[ids.len() as int] == p);
        }
        if all.contains(p) && p != id {
            let k = choose|k: int| 0 <= k < all.len() && all[k] == p;
            assert(ids[k] == p);
        }
    }
}

pub proof fn lemma_push_registered(panes: Seq<PaneModel>, pane: PaneModel)
    requires
        distinct(pane_ids(panes)),
        !registered(panes, pane.id),
    ensures
        distinct(pane_ids(panes.push(pane))),
        forall|p: PaneId| #[trigger]
            registered(panes.push(pane), p) <==> registered(panes, p) || p == pane.id,
{
    lemma_push_distinct(pane_ids(panes), pane.id);
    assert(pane_ids(panes.push(pane)) =~= pane_ids(panes).push(pane.id));
}

// ---------------------------------------------------------------------------
// Session steps
// ---------------------------------------------------------------------------
/// The session with one more event waiting.
pub open spec fn emit(m: SessionModel, e: EventModel) -> SessionModel {
    SessionModel { events: m.events.push(e), ..m }
}

/// The session with a new pane in a new tab at the end of a workspace.
pub open spec fn with_pane_in_new_tab(
    m: SessionModel,
    w: int,
    pane: PaneModel,
    tab_id: Uuid,
) -> SessionModel {
    SessionModel {
        panes: m.panes.push(pane),
        layout: with_new_tab(
            m.layout,
            w,
            TabModel {
                id: tab_id,
                title: Seq::empty(),
                pane_tree: PaneTree::Leaf { pane_id: pane.id },
            },
        ),
        ..m
    }
}

/// The session in which a pane has been split.
pub open spec fn with_split_pane(
    m: SessionModel,
    target: PaneId,
    pane: PaneModel,
    direction: Seq<char>,
    ratio: Ratio,
) -> SessionModel {
    let (w, t) = find_pane(m.layout, target)->0;
    SessionModel {
        panes: m.panes.push(pane),
        layout: with_tree(
            m.layout,
            w,
            t,
            tree_with_split(
                m.layout.workspaces[w].tabs[t].pane_tree,
                target,
                pane.id,
                direction,
                ratio,
            ),
        ),
        ..m
    }
}

/// The session after a pane has left the registry. Its byte log leaves with it,
/// and if it was alive its end is announced.
pub open spec fn pane_gone(m: SessionModel, id: PaneId) -> SessionModel {
    SessionModel {
        panes: panes_without(m.panes, id),
        logs: logs_without(m.logs, id),
        events: if registered(m.panes, id) {
            m.events.push(EventModel::PaneClosed { pane_id: id })
        } else {
            m.events
        },
        ..m
    }
}

/// The session after several panes have left the registry, in order.
pub open spec fn panes_gone(m: SessionModel, ids: Seq<PaneId>) -> SessionModel
    decreases ids.len(),
{
    if ids.len() == 0 {
        m
    } else {
        pane_gone(panes_gone(m, ids.drop_last()), ids.last())
    }
}

/// The session after the tab at a position has been closed.
pub open spec fn tab_closed(m: SessionModel, w: int, t: int) -> SessionModel {
    let tab = m.layout.workspaces[w].tabs[t];
    emit(
        panes_gone(
            SessionModel { layout: without_tab(m.layout, w, t), ..m },
            leaves(tab.pane_tree),
        ),
        EventModel::TabClosed { workspace_idx: w as usize, tab_id: tab.id },
    )
}

/// Position of the first tab that is a pane alone, from `from` on.
pub open spec fn leaf_tab_from(tabs: Seq<TabModel>, pane: PaneId, from: int) -> Option<int>
    decreases tabs.len() - from,
{
    if from < 0 || from >= tabs.len() {
        None
    } else if tabs[from].pane_tree == (PaneTree::Leaf { pane_id: pane }) {
        Some(from)
    } else {
        leaf_tab_from(tabs, pane, from + 1)
    }
}

/// The session after a live pane has been closed: a tab of the first workspace
/// that was this pane alone goes with it.
pub open spec fn pane_closed(m: SessionModel, id: PaneId) -> SessionModel {
    let layout = match leaf_tab_from(m.layout.workspaces[0].tabs, id, 0) {
        Some(t) => without_tab(m.layout, 0, t),
        None => m.layout,
    };
    pane_gone(SessionModel { layout, ..m }, id)
}

/// The session in which a pane has been taken out of the tree that holds it,
/// its sibling taking the place of the split above it.
pub open spec fn sibling_promoted(m: SessionModel, id: PaneId) -> SessionModel {
    match find_pane(m.layout, id) {
        Some((w, t)) => match tree_without(m.layout.workspaces[w].tabs[t].pane_tree, id) {
            Some(rest) => SessionModel { layout: with_tree(m.layout, w, t, rest), ..m },
            None => m,
        },
        None => m,
    }
}

/// All panes of some tabs, tab by tab.
pub open spec fn tabs_leaves(tabs: Seq<TabModel>) -> Seq<PaneId>
    decreases tabs.len(),
{
    if tabs.len() == 0 {
        Seq::empty()
    } else {
        tabs_leaves(tabs.drop_last()) + leaves(tabs.last().pane_tree)
    }
}

/// The active workspace after one of several has been deleted: the same one
/// where it is still there, else the last.
pub open spec fn active_after_delete(active: usize, w: int, remaining: nat) -> usize {
    if active > w {
        (active - 1) as usize
    } else if active >= remaining {
        (remaining - 1) as usize
    } else {
        active
    }
}

/// The session after a workspace has been deleted with all its panes.
pub open spec fn workspace_deleted(m: SessionModel, w: int) -> SessionModel {
    let ws = m.layout.workspaces[w];
    emit(
        panes_gone(
            SessionModel {
                layout: LayoutModel {
                    workspaces: m.layout.workspaces.remove(w),
                    active_workspace: active_after_delete(
                        m.layout.active_workspace,
                        w,
                        (m.layout.workspaces.len() - 1) as nat,
                    ),
                },
                ..m
            },
            tabs_leaves(ws.tabs),
        ),
        EventModel::WorkspaceDeleted { workspace_idx: w as usize, workspace_id: ws.id },
    )
}

/// Some tabs with the ratio of every split that `target` heads first in its
/// tab.
pub open spec fn tabs_with_ratio(tabs: Seq<TabModel>, target: PaneId, ratio: Ratio) -> Seq<
    TabModel,
> {
    Seq::new(
        tabs.len(),
        |i: int|
            TabModel { pane_tree: tree_with_ratio(tabs[i].pane_tree, target, ratio), ..tabs[i] },
    )
}

/// The layout with a new ratio wherever `target` heads a split.
pub open spec fn layout_with_ratio(layout: LayoutModel, target: PaneId, ratio: Ratio) -> LayoutModel {
    LayoutModel {
        workspaces: Seq::new(
            layout.workspaces.len(),
            |w: int|
                WorkspaceModel {
                    tabs: tabs_with_ratio(layout.workspaces[w].tabs, target, ratio),
                    ..layout.workspaces[w]
                },
        ),
        ..layout
    }
}

/// The layout after a list of ratio updates, each clamped, in order.
pub open spec fn layout_with_ratios(layout: LayoutModel, updates: Seq<(PaneId, Ratio)>) -> LayoutModel
    decreases updates.len(),
{
    if updates.len() == 0 {
        layout
    } else {
        layout_with_ratio(
            layout_with_ratios(layout, updates.drop_last()),
            updates.last().0,
            updates.last().1.clamped(),
        )
    }
}

/// Where a tab moves to: the asked position, or the last.
pub open spec fn move_target(new_index: usize, tabs: nat) -> int {
    if new_index < tabs {
        new_index as int
    } else {
        tabs - 1
    }
}

/// A workspace after the tab at `from` has moved to `to`; the tab that was
/// active stays active.
pub open spec fn tab_moved(ws: WorkspaceModel, from: int, to: int) -> WorkspaceModel {
    let tabs = ws.tabs.remove(from).insert(to, ws.tabs[from]);
    WorkspaceModel {
        tabs,
        active_tab: if ws.active_tab < ws.tabs.len() {
            tab_index(tabs, ws.tabs[ws.active_tab as int].id)->0 as usize
        } else {
            ws.active_tab
        },
        ..ws
    }
}

} // verus!

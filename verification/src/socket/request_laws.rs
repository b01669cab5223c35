//! What each request does to a session, told by what can be seen of the session
//! before and after it.

use vstd::prelude::*;

use crate::ids::{uuid_of_text, PaneId, Uuid};
use crate::seqs::lemma_first_is;
use crate::session::events::EventModel;
use crate::session::laws::{
    is_part_of, law_live_pane_has_one_place, law_moving_a_tab, law_tab_has_one_place, stands_in,
};
use crate::session::layout::{
    find_pane, find_tab, law_remove_keeps_the_others, leaves, lemma_find_tab_valid, tree_has,
    tree_without, LayoutModel, PaneTree, TabModel,
};
use crate::session::model::{
    active_ok, distinct, leaf_tab_from, log_ids, log_of, logs_without, pane_closed, pane_ids,
    pane_record, panes_gone, panes_without, registered, session_ok, sibling_promoted, tab_closed,
    without_tab, PaneModel, SessionModel,
};
use crate::session::model_laws::{lemma_leaf_tab_valid, lemma_panes_gone};
use crate::socket::answers::{session_answer, IoModel, RequestModel};
use crate::socket::methods::{method_named, Method};

verus! {

/// Whether a layout is small enough to be counted by the machine.
pub open spec fn fits(l: LayoutModel) -> bool {
    l.workspaces.len() <= usize::MAX && forall|w: int|
        0 <= w < l.workspaces.len() ==> (#[trigger] l.workspaces[w]).tabs.len() <= usize::MAX
}

/// Whether there is a tab at a place of a layout.
pub open spec fn has_place(l: LayoutModel, w: int, t: int) -> bool {
    0 <= w < l.workspaces.len() && 0 <= t < l.workspaces[w].tabs.len()
}

/// The tab at a place of a layout.
pub open spec fn tab_at(l: LayoutModel, w: int, t: int) -> TabModel {
    l.workspaces[w].tabs[t]
}

/// Whether a request gives an id under a key.
pub open spec fn gives_id(q: RequestModel, key: Seq<char>, id: Uuid) -> bool {
    q.params.text_at(key) matches Some(raw) && uuid_of_text(raw) == Some(id.value)
}

/// Whether layouts differ in one workspace at most, which keeps its id and name.
pub open spec fn only_one_changed(before: LayoutModel, after: LayoutModel, w: int) -> bool {
    &&& after.active_workspace == before.active_workspace
    &&& after.workspaces.len() == before.workspaces.len()
    &&& after.workspaces[w].id == before.workspaces[w].id
    &&& after.workspaces[w].name == before.workspaces[w].name
    &&& forall|v: int|
        0 <= v < before.workspaces.len() && v != w ==> #[trigger] after.workspaces[v]
            == before.workspaces[v]
}

/// Whether all that is neither layout nor announced is as it was.
pub open spec fn rest_kept(before: SessionModel, after: SessionModel) -> bool {
    &&& after.panes == before.panes
    &&& settings_kept(before, after)
    &&& after.logs == before.logs
}

/// Whether the settings of a session are as they were.
pub open spec fn settings_kept(before: SessionModel, after: SessionModel) -> bool {
    &&& after.pinned == before.pinned
    &&& after.ring_kb == before.ring_kb
    &&& after.max_mb == before.max_mb
}

// ---------------------------------------------------------------------------
// Tabs
// ---------------------------------------------------------------------------
/// The request to focus a tab is met exactly where it names a tab there is. That
/// tab is then the active one of its workspace, which is announced, and nothing
/// else has changed.
pub proof fn law_focus_makes_the_named_tab_active(m: SessionModel, q: RequestModel, io: IoModel)
    requires
        session_ok(m),
        fits(m.layout),
        method_named(q.method) == Method::FocusTab,
    ensures
        session_answer(m, q, io).response.error is None <==> exists|w: int, t: int| #[trigger]
            has_place(m.layout, w, t) && gives_id(q, "tab_id"@, tab_at(m.layout, w, t).id),
        session_answer(m, q, io).response.error is None ==> exists|w: int, t: int| #[trigger]
            has_place(m.layout, w, t) && gives_id(q, "tab_id"@, tab_at(m.layout, w, t).id) && ({
                let n = session_answer(m, q, io).session;
                &&& n.layout.workspaces[w].active_tab == t
                &&& n.layout.workspaces[w].tabs == m.layout.workspaces[w].tabs
                &&& only_one_changed(m.layout, n.layout, w)
                &&& rest_kept(m, n)
                &&& n.events == m.events.push(
                    EventModel::ActiveTabChanged { workspace_idx: w as usize, tab_idx: t as usize },
                )
            }),
{
    lemma_named_tab_found(m, q);
    if session_answer(m, q, io).response.error is None {
        let tab = Uuid { value: uuid_of_text(q.params.text_at("tab_id"@)->0)->0 };
        let (w, t) = find_tab(m.layout, tab)->0;
        assert(has_place(m.layout, w, t));
        assert(m.layout.workspaces[w].tabs.len() <= usize::MAX);
    }
}

/// A tab that a request names is found where it stands, and only there.
proof fn lemma_named_tab_found(m: SessionModel, q: RequestModel)
    requires
        session_ok(m),
    ensures
        forall|w: int, t: int| #[trigger]
            has_place(m.layout, w, t) && gives_id(q, "tab_id"@, tab_at(m.layout, w, t).id)
                ==> find_tab(m.layout, tab_at(m.layout, w, t).id) == Some((w, t)),
        forall|id: Uuid| #[trigger]
            find_tab(m.layout, id) matches Some((w, t)) ==> has_place(m.layout, w, t) && tab_at(
                m.layout,
                w,
                t,
            ).id == id,
{
    assert forall|w: int, t: int| #[trigger]
        has_place(m.layout, w, t) && gives_id(
            q,
            "tab_id"@,
            tab_at(m.layout, w, t).id,
        ) implies find_tab(m.layout, tab_at(m.layout, w, t).id) == Some((w, t)) by {
        law_tab_has_one_place(m, w, t);
    }
    assert forall|id: Uuid| #[trigger] find_tab(m.layout, id) matches Some((w, t)) implies ({
        let (w, t) = find_tab(m.layout, id)->0;
        has_place(m.layout, w, t) && tab_at(m.layout, w, t).id == id
    }) by {
        lemma_find_tab_valid(m.layout.workspaces, id, 0);
    }
}

/// The request to move a tab puts the tab that it names at the position that it
/// names, or last, keeps the order of the others, and leaves the same tab active;
/// a move is announced.
pub proof fn law_move_puts_the_tab_where_asked(m: SessionModel, q: RequestModel, io: IoModel)
    requires
        session_ok(m),
        fits(m.layout),
        method_named(q.method) == Method::MoveTab,
    ensures
        session_answer(m, q, io).response.error is None <==> q.params.unsigned_at("new_index"@)
            is Some && exists|w: int, t: int| #[trigger]
            has_place(m.layout, w, t) && gives_id(q, "tab_id"@, tab_at(m.layout, w, t).id),
        session_answer(m, q, io).response.error is None ==> exists|w: int, t: int| #[trigger]
            has_place(m.layout, w, t) && gives_id(q, "tab_id"@, tab_at(m.layout, w, t).id) && ({
                let n = session_answer(m, q, io).session;
                let before = m.layout.workspaces[w];
                let after = n.layout.workspaces[w];
                let asked = q.params.unsigned_at("new_index"@)->0 as usize as int;
                let to = if asked < before.tabs.len() {
                    asked
                } else {
                    before.tabs.len() - 1
                };
                &&& after.tabs.len() == before.tabs.len()
                &&& after.tabs[to] == before.tabs[t]
                &&& after.tabs.remove(to) == before.tabs.remove(t)
                &&& after.active_tab < after.tabs.len()
                &&& after.tabs[after.active_tab as int] == before.tabs[before.active_tab as int]
                &&& only_one_changed(m.layout, n.layout, w)
                &&& rest_kept(m, n)
                &&& n.events == if to == t {
                    m.events
                } else {
                    m.events.push(
                        EventModel::TabMoved {
                            workspace_idx: w as usize,
                            tab_id: before.tabs[t].id,
                            new_index: to as usize,
                        },
                    )
                }
            }),
{
    lemma_named_tab_found(m, q);
    if session_answer(m, q, io).response.error is None {
        let tab = Uuid { value: uuid_of_text(q.params.text_at("tab_id"@)->0)->0 };
        let (w, t) = find_tab(m.layout, tab)->0;
        assert(has_place(m.layout, w, t));
        let ws = m.layout.workspaces[w];
        assert(ws.tabs.len() <= usize::MAX);
        assert(active_ok(ws));
        let asked = q.params.unsigned_at("new_index"@)->0 as usize as int;
        let to = if asked < ws.tabs.len() {
            asked
        } else {
            ws.tabs.len() - 1
        };
        law_moving_a_tab(ws, t, to);
        crate::session::model_laws::lemma_moved_active(ws, t, to);
        if to == t {
            assert(ws.tabs.remove(t) == ws.tabs.remove(to));
        }
    }
}

/// What is known of the panes and logs that stay when others go.
pub proof fn lemma_gone_records(m: SessionModel, ids: Seq<PaneId>, p: PaneId)
    requires
        distinct(pane_ids(m.panes)),
        distinct(log_ids(m.logs)),
        forall|i: int| 0 <= i < m.logs.len() ==> (#[trigger] m.logs[i]).1.ok(),
    ensures
        pane_record(panes_gone(m, ids).panes, p) == if ids.contains(p) {
            None
        } else {
            pane_record(m.panes, p)
        },
        log_of(panes_gone(m, ids).logs, p) == if ids.contains(p) {
            None
        } else {
            log_of(m.logs, p)
        },
    decreases ids.len(),
{
    if ids.len() > 0 {
        let rest = ids.drop_last();
        lemma_gone_records(m, rest, p);
        lemma_panes_gone(m, rest);
        let n = panes_gone(m, rest);
        lemma_record_without(n.panes, ids.last(), p);
        lemma_log_without(n.logs, ids.last(), p);
        if ids.contains(p) && p != ids.last() {
            let k = choose|k: int| 0 <= k < ids.len() && ids[k] == p;
            assert(rest[k] == p);
        }
        if rest.contains(p) {
            let k = choose|k: int| 0 <= k < rest.len() && rest[k] == p;
            assert(ids[k] == p);
        }
        if p == ids.last() {
            assert(ids[ids.len() - 1] == p);
        }
    }
}

proof fn lemma_record_without(panes: Seq<PaneModel>, gone: PaneId, p: PaneId)
    requires
        distinct(pane_ids(panes)),
    ensures
        pane_record(panes_without(panes, gone), p) == if p == gone {
            None
        } else {
            pane_record(panes, p)
        },
{
    let ids = pane_ids(panes);
    let after = panes_without(panes, gone);
    let left = pane_ids(after);
    lemma_first_is(ids, gone);
    lemma_first_is(ids, p);
    lemma_first_is(left, p);
    match ids.index_of_first(gone) {
        Some(i) => {
            assert(left =~= ids.remove(i));
            if p == gone {
                if let Some(j) = left.index_of_first(p) {
                    let k = if j < i {
                        j
                    } else {
                        j + 1
                    };
                    assert(ids[k] == ids[i]);
                }
            } else {
                if let Some(j) = ids.index_of_first(p) {
                    let k = if j < i {
                        j
                    } else {
                        j - 1
                    };
                    assert(left[k] == p);
                    assert(left.index_of_first(p) is Some);
                    let h = left.index_of_first(p)->0;
                    let g = if h < i {
                        h
                    } else {
                        h + 1
                    };
                    assert(ids[g] == p);
                    assert(g == j);
                }
                if let Some(h) = left.index_of_first(p) {
                    let g = if h < i {
                        h
                    } else {
                        h + 1
                    };
                    assert(ids[g] == p);
                }
            }
        },
        None => {},
    }
}

proof fn lemma_log_without(
    logs: Seq<(PaneId, crate::session::byte_log::LogModel)>,
    gone: PaneId,
    p: PaneId,
)
    requires
        distinct(log_ids(logs)),
    ensures
        log_of(logs_without(logs, gone), p) == if p == gone {
            None
        } else {
            log_of(logs, p)
        },
{
    let ids = log_ids(logs);
    let after = logs_without(logs, gone);
    let left = log_ids(after);
    lemma_first_is(ids, gone);
    lemma_first_is(ids, p);
    lemma_first_is(left, p);
    match ids.index_of_first(gone) {
        Some(i) => {
            assert(left =~= ids.remove(i));
            if p == gone {
                if let Some(j) = left.index_of_first(p) {
                    let k = if j < i {
                        j
                    } else {
                        j + 1
                    };
                    assert(ids[k] == ids[i]);
                }
            } else {
                if let Some(j) = ids.index_of_first(p) {
                    let k = if j < i {
                        j
                    } else {
                        j - 1
                    };
                    assert(left[k] == p);
                    assert(left.index_of_first(p) is Some);
                    let h = left.index_of_first(p)->0;
                    let g = if h < i {
                        h
                    } else {
                        h + 1
                    };
                    assert(ids[g] == p);
                    assert(g == j);
                }
                if let Some(h) = left.index_of_first(p) {
                    let g = if h < i {
                        h
                    } else {
                        h + 1
                    };
                    assert(ids[g] == p);
                }
            }
        },
        None => {},
    }
}

/// Whether exactly some panes are gone between two sessions, with their logs, and
/// all that is known of the others is as it was.
pub open spec fn exactly_gone(before: SessionModel, after: SessionModel, gone: Seq<PaneId>) -> bool {
    &&& forall|p: PaneId|
        #![trigger pane_record(after.panes, p)]
        pane_record(after.panes, p) == if gone.contains(p) {
            None
        } else {
            pane_record(before.panes, p)
        }
    &&& forall|p: PaneId|
        #![trigger log_of(after.logs, p)]
        log_of(after.logs, p) == if gone.contains(p) {
            None
        } else {
            log_of(before.logs, p)
        }
}

/// Whether a session is another one without the tab at a place: the tab and its
/// panes are gone, the other tabs of the workspace stay in their order, and the
/// active one is the same position, or the last.
pub open spec fn lost_tab(before: SessionModel, after: SessionModel, w: int, t: int) -> bool {
    let ws = before.layout.workspaces[w];
    let left = after.layout.workspaces[w];
    &&& left.tabs == ws.tabs.remove(t)
    &&& left.active_tab == if ws.active_tab < left.tabs.len() {
        ws.active_tab as int
    } else if left.tabs.len() > 0 {
        left.tabs.len() - 1
    } else {
        0
    }
    &&& only_one_changed(before.layout, after.layout, w)
    &&& settings_kept(before, after)
    &&& exactly_gone(before, after, leaves(ws.tabs[t].pane_tree))
    &&& after.events.last() == (EventModel::TabClosed {
        workspace_idx: w as usize,
        tab_id: ws.tabs[t].id,
    })
}

proof fn lemma_tab_closed_lost(m: SessionModel, w: int, t: int)
    requires
        session_ok(m),
        has_place(m.layout, w, t),
    ensures
        lost_tab(m, tab_closed(m, w, t), w, t),
{
    let mid = SessionModel { layout: without_tab(m.layout, w, t), ..m };
    let ids = leaves(tab_at(m.layout, w, t).pane_tree);
    lemma_panes_gone(mid, ids);
    lemma_gone_settings(mid, ids);
    assert(active_ok(m.layout.workspaces[w]));
    let n = tab_closed(m, w, t);
    assert forall|p: PaneId|
        #![trigger pane_record(n.panes, p)]
        pane_record(n.panes, p) == if ids.contains(p) {
            None
        } else {
            pane_record(m.panes, p)
        } by {
        lemma_gone_records(mid, ids, p);
    }
    assert forall|p: PaneId|
        #![trigger log_of(n.logs, p)]
        log_of(n.logs, p) == if ids.contains(p) {
            None
        } else {
            log_of(m.logs, p)
        } by {
        lemma_gone_records(mid, ids, p);
    }
}

pub proof fn lemma_gone_settings(m: SessionModel, ids: Seq<PaneId>)
    ensures
        settings_kept(m, panes_gone(m, ids)),
        panes_gone(m, ids).layout == m.layout,
    decreases ids.len(),
{
    if ids.len() > 0 {
        lemma_gone_settings(m, ids.drop_last());
    }
}

/// The request to close a tab by its id closes that tab with all its panes, and
/// is met exactly where there is such a tab.
pub proof fn law_close_closes_the_named_tab(m: SessionModel, q: RequestModel, io: IoModel)
    requires
        session_ok(m),
        fits(m.layout),
        method_named(q.method) == Method::CloseTab,
        q.params.text_at("tab_id"@) is Some,
    ensures
        session_answer(m, q, io).response.error is None <==> exists|w: int, t: int| #[trigger]
            has_place(m.layout, w, t) && gives_id(q, "tab_id"@, tab_at(m.layout, w, t).id),
        session_answer(m, q, io).response.error is None ==> exists|w: int, t: int| #[trigger]
            has_place(m.layout, w, t) && gives_id(q, "tab_id"@, tab_at(m.layout, w, t).id)
                && lost_tab(m, session_answer(m, q, io).session, w, t),
{
    lemma_named_tab_found(m, q);
    if session_answer(m, q, io).response.error is None {
        let tab = Uuid { value: uuid_of_text(q.params.text_at("tab_id"@)->0)->0 };
        let (w, t) = find_tab(m.layout, tab)->0;
        assert(has_place(m.layout, w, t));
        lemma_tab_closed_lost(m, w, t);
    }
}

/// The request to close a tab by a live pane closes the tab in which that pane
/// stands.
pub proof fn law_close_closes_the_tab_of_the_named_pane(
    m: SessionModel,
    q: RequestModel,
    io: IoModel,
    pane: PaneId,
)
    requires
        session_ok(m),
        method_named(q.method) == Method::CloseTab,
        q.params.text_at("tab_id"@) is None,
        gives_id(q, "pane_id"@, pane.0),
        registered(m.panes, pane),
    ensures
        session_answer(m, q, io).response.error is None,
        exists|w: int, t: int| #[trigger]
            has_place(m.layout, w, t) && tree_has(tab_at(m.layout, w, t).pane_tree, pane)
                && lost_tab(m, session_answer(m, q, io).session, w, t),
{
    law_live_pane_has_one_place(m, pane);
    let (w, t) = find_pane(m.layout, pane)->0;
    assert(has_place(m.layout, w, t));
    law_tab_has_one_place(m, w, t);
    lemma_tab_closed_lost(m, w, t);
}

/// The request to close a live pane closes it. Where it was alone in its tab the
/// tab goes with it; else the others of the tab stay, in their order, in the same
/// tab.
pub proof fn law_close_closes_the_named_pane(
    m: SessionModel,
    q: RequestModel,
    io: IoModel,
    pane: PaneId,
)
    requires
        session_ok(m),
        method_named(q.method) == Method::ClosePane,
        gives_id(q, "pane_id"@, pane.0),
        registered(m.panes, pane),
    ensures
        session_answer(m, q, io).response.error is None,
        exists|w: int, t: int| #[trigger]
            has_place(m.layout, w, t) && tree_has(tab_at(m.layout, w, t).pane_tree, pane) && ({
                let n = session_answer(m, q, io).session;
                let tree = tab_at(m.layout, w, t).pane_tree;
                if leaves(tree).len() == 1 {
                    lost_tab(m, n, w, t)
                } else {
                    let before = m.layout.workspaces[w];
                    let after = n.layout.workspaces[w];
                    let stays = tab_at(n.layout, w, t);
                    &&& leaves(stays.pane_tree) == leaves(tree).remove(
                        leaves(tree).index_of_first(pane)->0,
                    )
                    &&& forall|part: PaneTree| #[trigger]
                        is_part_of(tree, part) && !tree_has(part, pane) ==> is_part_of(
                            stays.pane_tree,
                            part,
                        )
                    &&& stays.id == tab_at(m.layout, w, t).id
                    &&& stays.title == tab_at(m.layout, w, t).title
                    &&& after.tabs == before.tabs.update(t, stays)
                    &&& after.active_tab == before.active_tab
                    &&& only_one_changed(m.layout, n.layout, w)
                    &&& settings_kept(m, n)
                    &&& exactly_gone(m, n, seq![pane])
                    &&& n.events == m.events.push(EventModel::PaneClosed { pane_id: pane })
                }
            }),
{
    law_live_pane_has_one_place(m, pane);
    let (w, t) = find_pane(m.layout, pane)->0;
    assert(has_place(m.layout, w, t));
    law_tab_has_one_place(m, w, t);
    let tree = tab_at(m.layout, w, t).pane_tree;
    assert(leaves(tree).len() > 0);
    if leaves(tree).len() == 1 {
        lemma_tab_closed_lost(m, w, t);
    } else {
        lemma_leaf_tab_valid(m.layout.workspaces[0].tabs, pane, 0);
        if let Some(k) = leaf_tab_from(m.layout.workspaces[0].tabs, pane, 0) {
            assert(leaves(m.layout.workspaces[0].tabs[k].pane_tree)[0] == pane);
            assert(stands_in(m.layout, 0, k, pane));
            assert(leaves(tree).len() == 1);
        }
        let mid = pane_closed(m, pane);
        assert(mid.layout == m.layout);
        law_remove_keeps_the_others(tree, pane);
        assert(tree_without(tree, pane) is Some);
        crate::session::laws::law_closing_keeps_the_other_parts(tree, pane);
        let n = sibling_promoted(mid, pane);
        let gone = seq![pane];
        assert(gone[0] == pane);
        assert forall|p: PaneId|
            #![trigger pane_record(n.panes, p)]
            pane_record(n.panes, p) == if gone.contains(p) {
                None
            } else {
                pane_record(m.panes, p)
            } by {
            lemma_record_without(m.panes, pane, p);
        }
        assert forall|p: PaneId|
            #![trigger log_of(n.logs, p)]
            log_of(n.logs, p) == if gone.contains(p) {
                None
            } else {
                log_of(m.logs, p)
            } by {
            lemma_log_without(m.logs, pane, p);
        }
        let stays = TabModel { pane_tree: tree_without(tree, pane)->0, ..tab_at(m.layout, w, t) };
        assert(n.layout.workspaces[w].tabs =~= m.layout.workspaces[w].tabs.update(t, stays));
        assert(tab_at(n.layout, w, t) == stays);
        assert(n == session_answer(m, q, io).session);
    }
}

/// A pane that leaves the registry by itself takes its log along, and the tab of the first
/// workspace that it was alone in; every other tab stays as it is, and its end is
/// announced.
pub proof fn law_pane_leaves_the_registry(m: SessionModel, pane: PaneId, t: int)
    requires
        session_ok(m),
        registered(m.panes, pane),
    ensures
        ({
            let n = pane_closed(m, pane);
            let alone = has_place(m.layout, 0, t) && tab_at(m.layout, 0, t).pane_tree == (
            PaneTree::Leaf { pane_id: pane });
            &&& exactly_gone(m, n, seq![pane])
            &&& settings_kept(m, n)
            &&& n.events == m.events.push(EventModel::PaneClosed { pane_id: pane })
            &&& alone ==> n.layout.workspaces[0].tabs == m.layout.workspaces[0].tabs.remove(t)
                && only_one_changed(m.layout, n.layout, 0)
            &&& (forall|k: int| #[trigger]
                has_place(m.layout, 0, k) ==> tab_at(m.layout, 0, k).pane_tree != (PaneTree::Leaf {
                    pane_id: pane,
                })) ==> n.layout == m.layout
        }),
{
    let n = pane_closed(m, pane);
    let tabs = m.layout.workspaces[0].tabs;
    lemma_leaf_tab_valid(tabs, pane, 0);
    law_live_pane_has_one_place(m, pane);
    if has_place(m.layout, 0, t) && tab_at(m.layout, 0, t).pane_tree == (PaneTree::Leaf {
        pane_id: pane,
    }) {
        assert(leaves(tab_at(m.layout, 0, t).pane_tree)[0] == pane);
        assert(stands_in(m.layout, 0, t, pane));
        let k = leaf_tab_from(tabs, pane, 0)->0;
        assert(leaves(tabs[k].pane_tree)[0] == pane);
        assert(stands_in(m.layout, 0, k, pane));
        assert(k == t);
    }
    if leaf_tab_from(tabs, pane, 0) is Some {
        assert(has_place(m.layout, 0, leaf_tab_from(tabs, pane, 0)->0));
    }
    let gone = seq![pane];
    assert(gone[0] == pane);
    assert forall|p: PaneId|
        #![trigger pane_record(n.panes, p)]
        pane_record(n.panes, p) == if gone.contains(p) {
            None
        } else {
            pane_record(m.panes, p)
        } by {
        lemma_record_without(m.panes, pane, p);
    }
    assert forall|p: PaneId|
        #![trigger log_of(n.logs, p)]
        log_of(n.logs, p) == if gone.contains(p) {
            None
        } else {
            log_of(m.logs, p)
        } by {
        lemma_log_without(m.logs, pane, p);
    }
}

} // verus!

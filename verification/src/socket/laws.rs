//! What holds of all answers.

use vstd::prelude::*;

use crate::ids::{uuid_of_text, PaneId, Uuid};
use crate::ratio::{Ratio, HALF_BITS};
use crate::session::events::EventModel;
use crate::session::layout::{find_pane, find_tab, leaves, LayoutModel};
use crate::session::model::{
    active_after_delete, emit, leaf_tab_from, pane_closed, pane_gone, pane_ids, panes_gone,
    registered, sibling_promoted, tab_closed, tabs_leaves, with_pane_in_new_tab, with_split_pane,
    without_tab, workspace_deleted, PaneModel, SessionModel,
};
use crate::socket::answers::{
    asked_cwd, asked_name, asked_size, asked_split, asked_workspace, default_size, named_pane,
    needed, pane_split, session_answer, split_cwd, started_pane, tab_created, workspace_created,
    IoModel, RequestModel,
};
use crate::socket::methods::{method_named, Method};

verus! {

/// Every response carries the id of its request.
pub proof fn law_response_carries_the_id(m: SessionModel, q: RequestModel, io: IoModel)
    ensures
        session_answer(m, q, io).response.id == q.id,
{
}

/// A request that is refused leaves the session as it was. Only a workspace
/// stays whose first tab could not be opened.
pub proof fn law_refused_changes_nothing(m: SessionModel, q: RequestModel, io: IoModel)
    requires
        method_named(q.method) != Method::CreateWorkspace,
        session_answer(m, q, io).response.error is Some,
    ensures
        session_answer(m, q, io).session == m,
{
}

/// Where nothing had to be done for a request, the answer does not depend on
/// what was done.
pub proof fn law_answer_without_effect(
    m: SessionModel,
    q: RequestModel,
    io: IoModel,
    other: IoModel,
)
    requires
        needed(m, q, io.cwd_is_dir) is Nothing,
    ensures
        session_answer(m, q, io) == session_answer(m, q, other),
{
}

/// No process is started in vain: where one was to be started and was, the
/// request is met.
pub proof fn law_process_is_started_for_a_request_that_is_met(
    m: SessionModel,
    q: RequestModel,
    io: IoModel,
)
    requires
        needed(m, q, io.cwd_is_dir) is Spawn,
        io.spawned is Ok,
    ensures
        session_answer(m, q, io).response.error is None,
{
}

/// Whether an event was announced after `before`.
pub open spec fn told(before: Seq<EventModel>, after: Seq<EventModel>, e: EventModel) -> bool {
    exists|i: int| before.len() <= i < after.len() && after[i] == e
}

/// Whether what was announced stays, and every pane that came or went between
/// two sessions was announced.
pub open spec fn told_of(before: SessionModel, after: SessionModel, pane: PaneId) -> bool {
    &&& before.events.is_prefix_of(after.events)
    &&& registered(before.panes, pane) && !registered(after.panes, pane) ==> told(
        before.events,
        after.events,
        EventModel::PaneClosed { pane_id: pane },
    )
    &&& !registered(before.panes, pane) && registered(after.panes, pane) ==> told(
        before.events,
        after.events,
        EventModel::PaneCreated { pane_id: pane },
    )
}

proof fn lemma_pane_gone_told(m: SessionModel, id: PaneId, pane: PaneId)
    ensures
        told_of(m, pane_gone(m, id), pane),
        registered(pane_gone(m, id).panes, pane) ==> registered(m.panes, pane),
{
    let ids = pane_ids(m.panes);
    ids.index_of_first_ensures(id);
    match ids.index_of_first(id) {
        Some(i) => {
            let after = m.panes.remove(i);
            assert(ids.contains(id)) by {
                assert(ids[i] == id);
            }
            let e = EventModel::PaneClosed { pane_id: id };
            assert(m.events.push(e)[m.events.len() as int] == e);
            if registered(m.panes, pane) && pane != id {
                let j = choose|j: int| 0 <= j < ids.len() && ids[j] == pane;
                let k = if j < i {
                    j
                } else {
                    j - 1
                };
                assert(pane_ids(after)[k] == pane);
            }
            if registered(after, pane) {
                let k = choose|k: int| 0 <= k < after.len() && pane_ids(after)[k] == pane;
                let j = if k < i {
                    k
                } else {
                    k + 1
                };
                assert(ids[j] == pane);
            }
        },
        None => {},
    }
}

proof fn lemma_told_in_steps(a: SessionModel, b: SessionModel, c: SessionModel, pane: PaneId)
    requires
        told_of(a, b, pane),
        told_of(b, c, pane),
        registered(c.panes, pane) ==> registered(b.panes, pane) || !registered(a.panes, pane),
    ensures
        told_of(a, c, pane),
{
    assert forall|e: EventModel| told(a.events, b.events, e) implies told(
        a.events,
        c.events,
        e,
    ) by {
        let i = choose|i: int| a.events.len() <= i < b.events.len() && b.events[i] == e;
        assert(c.events[i] == e);
    }
    assert forall|e: EventModel| told(b.events, c.events, e) implies told(
        a.events,
        c.events,
        e,
    ) by {
        let i = choose|i: int| b.events.len() <= i < c.events.len() && c.events[i] == e;
        assert(c.events[i] == e);
    }
}

proof fn lemma_panes_gone_told(m: SessionModel, ids: Seq<PaneId>, pane: PaneId)
    ensures
        told_of(m, panes_gone(m, ids), pane),
        registered(panes_gone(m, ids).panes, pane) ==> registered(m.panes, pane),
    decreases ids.len(),
{
    if ids.len() > 0 {
        let before = panes_gone(m, ids.drop_last());
        lemma_panes_gone_told(m, ids.drop_last(), pane);
        lemma_pane_gone_told(before, ids.last(), pane);
        lemma_told_in_steps(m, before, panes_gone(m, ids), pane);
    }
}

proof fn lemma_emit_told(a: SessionModel, b: SessionModel, e: EventModel, pane: PaneId)
    requires
        told_of(a, b, pane),
    ensures
        told_of(a, emit(b, e), pane),
{
    lemma_told_in_steps(a, b, emit(b, e), pane);
}

proof fn lemma_new_pane_told(m: SessionModel, grown: SessionModel, p: PaneModel, pane: PaneId)
    requires
        grown.panes == m.panes.push(p),
        grown.events == m.events,
    ensures
        told_of(m, emit(grown, EventModel::PaneCreated { pane_id: p.id }), pane),
{
    let e = EventModel::PaneCreated { pane_id: p.id };
    assert(m.events.push(e)[m.events.len() as int] == e);
    let ids = pane_ids(grown.panes);
    if registered(m.panes, pane) {
        let j = choose|j: int| 0 <= j < m.panes.len() && pane_ids(m.panes)[j] == pane;
        assert(ids[j] == pane);
    }
    if registered(grown.panes, pane) && pane != p.id {
        let j = choose|j: int| 0 <= j < ids.len() && ids[j] == pane;
        assert(pane_ids(m.panes)[j] == pane);
    }
}

proof fn lemma_gone_with_told(
    m: SessionModel,
    less: SessionModel,
    ids: Seq<PaneId>,
    e: EventModel,
    pane: PaneId,
)
    requires
        less.panes == m.panes,
        less.events == m.events,
    ensures
        told_of(m, emit(panes_gone(less, ids), e), pane),
{
    lemma_panes_gone_told(less, ids, pane);
    lemma_emit_told(m, panes_gone(less, ids), e, pane);
}

proof fn lemma_tab_closed_told(m: SessionModel, w: int, t: int, pane: PaneId)
    ensures
        told_of(m, tab_closed(m, w, t), pane),
{
    let tab = m.layout.workspaces[w].tabs[t];
    lemma_gone_with_told(
        m,
        SessionModel { layout: without_tab(m.layout, w, t), ..m },
        leaves(tab.pane_tree),
        EventModel::TabClosed { workspace_idx: w as usize, tab_id: tab.id },
        pane,
    );
}

proof fn lemma_workspace_deleted_told(m: SessionModel, w: int, pane: PaneId)
    ensures
        told_of(m, workspace_deleted(m, w), pane),
{
    let ws = m.layout.workspaces[w];
    let layout = LayoutModel {
        workspaces: m.layout.workspaces.remove(w),
        active_workspace: active_after_delete(
            m.layout.active_workspace,
            w,
            (m.layout.workspaces.len() - 1) as nat,
        ),
    };
    lemma_gone_with_told(
        m,
        SessionModel { layout, ..m },
        tabs_leaves(ws.tabs),
        EventModel::WorkspaceDeleted { workspace_idx: w as usize, workspace_id: ws.id },
        pane,
    );
}

/// What closing a pane, or the tab that it stands in, tells.
proof fn lemma_closed_by_pane_told(m: SessionModel, target: PaneId, pane: PaneId)
    ensures
        told_of(m, pane_closed(m, target), pane),
        told_of(m, sibling_promoted(pane_closed(m, target), target), pane),
        match find_pane(m.layout, target) {
            Some((w, t)) => match find_tab(m.layout, m.layout.workspaces[w].tabs[t].id) {
                Some((v, u)) => told_of(m, tab_closed(m, v, u), pane),
                None => true,
            },
            None => true,
        },
{
    let less = SessionModel {
        layout: match leaf_tab_from(m.layout.workspaces[0].tabs, target, 0) {
            Some(t) => without_tab(m.layout, 0, t),
            None => m.layout,
        },
        ..m
    };
    lemma_pane_gone_told(less, target, pane);
    assert(told_of(m, pane_closed(m, target), pane));
    if let Some((w, t)) = find_pane(m.layout, target) {
        if let Some((v, u)) = find_tab(m.layout, m.layout.workspaces[w].tabs[t].id) {
            lemma_tab_closed_told(m, v, u, pane);
        }
    }
}

proof fn lemma_tab_created_told(
    m: SessionModel,
    w: usize,
    p: PaneModel,
    tab_id: Uuid,
    pane: PaneId,
)
    ensures
        told_of(m, tab_created(m, w, p, tab_id), pane),
{
    let grown = with_pane_in_new_tab(m, w as int, p, tab_id);
    lemma_new_pane_told(m, grown, p, pane);
    lemma_emit_told(
        m,
        emit(grown, EventModel::PaneCreated { pane_id: p.id }),
        EventModel::TabCreated { workspace_idx: w, tab_id, pane_id: p.id },
        pane,
    );
}

proof fn lemma_pane_split_told(
    m: SessionModel,
    target: PaneId,
    p: PaneModel,
    direction: Seq<char>,
    ratio: Ratio,
    pane: PaneId,
)
    ensures
        told_of(m, pane_split(m, target, p, direction, ratio), pane),
{
    let grown = with_split_pane(m, target, p, direction, ratio);
    lemma_new_pane_told(m, grown, p, pane);
    lemma_emit_told(
        m,
        emit(grown, EventModel::PaneCreated { pane_id: p.id }),
        pane_split(m, target, p, direction, ratio).events.last(),
        pane,
    );
}

/// What was announced is not taken back, and no pane comes or goes by a request
/// without being announced.
pub proof fn law_panes_are_announced(m: SessionModel, q: RequestModel, io: IoModel, pane: PaneId)
    ensures
        told_of(m, session_answer(m, q, io).session, pane),
{
    let after = session_answer(m, q, io).session;
    match method_named(q.method) {
        Method::NewTab => {
            if let Ok(pid) = io.spawned {
                let p = started_pane(
                    io.pane_id,
                    pid,
                    asked_size(q.params),
                    asked_cwd(q.params, io.cwd_is_dir),
                    io.home,
                );
                lemma_tab_created_told(m, asked_workspace(q.params), p, io.tab_id, pane);
            }
        },
        Method::CreateWorkspace => {
            let with_ws = workspace_created(m, io.workspace_id, asked_name(q.params));
            if let Ok(pid) = io.spawned {
                let w = m.layout.workspaces.len() as usize;
                let p = started_pane(io.pane_id, pid, default_size(), None, io.home);
                lemma_tab_created_told(with_ws, w, p, io.tab_id, pane);
                lemma_told_in_steps(m, with_ws, after, pane);
            }
        },
        Method::SplitPane => {
            if let Ok((target, direction)) = asked_split(m, q.params) {
                if let Ok(pid) = io.spawned {
                    let p = started_pane(
                        io.pane_id,
                        pid,
                        asked_size(q.params),
                        split_cwd(m, q, target, io.cwd_is_dir),
                        io.home,
                    );
                    lemma_pane_split_told(
                        m,
                        target,
                        p,
                        direction,
                        Ratio { bits: HALF_BITS },
                        pane,
                    );
                }
            }
        },
        Method::CloseTab => {
            if let Some(raw) = q.params.text_at("tab_id"@) {
                if let Some(v) = uuid_of_text(raw) {
                    if let Some((w, t)) = find_tab(m.layout, Uuid { value: v }) {
                        lemma_tab_closed_told(m, w, t, pane);
                    }
                }
            } else if let Ok(target) = named_pane(m, q.params) {
                lemma_closed_by_pane_told(m, target, pane);
            }
        },
        Method::ClosePane => {
            if let Ok(target) = named_pane(m, q.params) {
                lemma_closed_by_pane_told(m, target, pane);
            }
        },
        Method::DeleteWorkspace => {
            if let Some(n) = q.params.unsigned_at("workspace_idx"@) {
                lemma_workspace_deleted_told(m, n as usize as int, pane);
            }
        },
        Method::ResizePane => {
            if let Ok(target) = named_pane(m, q.params) {
                pane_ids(m.panes).index_of_first_ensures(target);
            }
            assert(pane_ids(after.panes) =~= pane_ids(m.panes));
        },
        _ => {},
    }
}

} // verus!

//! What the requests that ask something are told, and what those that set
//! something change, by what can be seen of the session and of the answer.

use vstd::prelude::*;

use crate::ids::{uuid_text, PaneId};
use crate::ratio::{MAX_RATIO_BITS, MIN_RATIO_BITS, Ratio};
use crate::seqs::lemma_first_is;
use crate::session::events::EventModel;
use crate::session::layout::{
    heads_a_split, leaves, tree_has, tree_with_ratio, LayoutModel, PaneTree, TabModel,
    WorkspaceModel,
};
use crate::session::model::{
    layout_with_ratio, layout_with_ratios, pane_ids, pane_record, registered, session_ok,
    tabs_leaves, PaneModel, SessionModel,
};
use crate::socket::answers::{
    named_pane, needed, pane_json, ratio_updates, session_answer, tab_json, tree_json,
    workspace_json, EffectModel, IoModel, RequestModel,
};
use crate::socket::codec::base64_bytes_of;
use crate::socket::json::JsonModel;
use crate::socket::methods::{method_named, Method};
use crate::socket::opening_laws::{is_asked, law_first_field_is_read};
use crate::socket::protocol::ResponseModel;
use crate::socket::request_laws::{
    exactly_gone, gives_id, has_place, lemma_gone_records, lemma_gone_settings, rest_kept,
    settings_kept, tab_at,
};

verus! {

// ---------------------------------------------------------------------------
// What is told
// ---------------------------------------------------------------------------
/// Whether an object tells all of a pane.
pub open spec fn tells_pane(j: JsonModel, p: PaneModel) -> bool {
    &&& j.text_at("pane_id"@) == Some(uuid_text(p.id.0.value))
    &&& p.pid is Some ==> j.unsigned_at("pid"@) == Some(p.pid->0 as u64)
    &&& p.pid is None ==> j.get("pid"@) == Some(JsonModel::Null)
    &&& j.unsigned_at("rows"@) == Some(p.rows as u64)
    &&& j.unsigned_at("cols"@) == Some(p.cols as u64)
    &&& j.text_at("cwd"@) == Some(p.cwd)
    &&& j.text_at("title"@) == Some(p.title)
}

proof fn lemma_pane_told(p: PaneModel)
    ensures
        tells_pane(pane_json(p), p),
{
    let fields = pane_json(p)->Object_0;
    reveal_strlit("pane_id");
    reveal_strlit("pid");
    reveal_strlit("rows");
    reveal_strlit("cols");
    reveal_strlit("cwd");
    reveal_strlit("title");
    assert("pane_id"@.len() == 7 && "pid"@.len() == 3 && "rows"@.len() == 4 && "cols"@.len() == 4
        && "cwd"@.len() == 3 && "title"@.len() == 5);
    assert("pid"@[0] == 'p' && "cwd"@[0] == 'c' && "rows"@[0] == 'r' && "cols"@[0] == 'c');
    law_first_field_is_read(fields, "pane_id"@, 0);
    law_first_field_is_read(fields, "pid"@, 1);
    law_first_field_is_read(fields, "rows"@, 2);
    law_first_field_is_read(fields, "cols"@, 3);
    law_first_field_is_read(fields, "cwd"@, 4);
    law_first_field_is_read(fields, "title"@, 5);
}

/// The request for the tabs is told all panes, in the order of their creation.
pub proof fn law_list_tells_every_pane(m: SessionModel, q: RequestModel, io: IoModel)
    requires
        method_named(q.method) == Method::ListTabs,
    ensures
        session_answer(m, q, io).session == m,
        session_answer(m, q, io).response.result is Some,
        session_answer(m, q, io).response.result->0.items_at("tabs"@) is Some,
        session_answer(m, q, io).response.result->0.items_at("tabs"@)->0.len() == m.panes.len(),
        forall|i: int|
            0 <= i < m.panes.len() ==> tells_pane(
                session_answer(m, q, io).response.result->0.items_at("tabs"@)->0[i],
                #[trigger] m.panes[i],
            ),
{
    let r = session_answer(m, q, io).response.result->0;
    law_first_field_is_read(r->Object_0, "tabs"@, 0);
    assert forall|i: int| 0 <= i < m.panes.len() implies tells_pane(
        r.items_at("tabs"@)->0[i],
        #[trigger] m.panes[i],
    ) by {
        lemma_pane_told(m.panes[i]);
    }
}

/// The request for what is known of a pane is told all of it, exactly where it
/// names a live pane.
pub proof fn law_info_tells_the_named_pane(m: SessionModel, q: RequestModel, io: IoModel)
    requires
        session_ok(m),
        method_named(q.method) == Method::GetPaneInfo,
    ensures
        session_answer(m, q, io).session == m,
        session_answer(m, q, io).response.error is None <==> exists|i: int|
            0 <= i < m.panes.len() && gives_id(q, "pane_id"@, (#[trigger] m.panes[i]).id.0),
        forall|i: int|
            0 <= i < m.panes.len() && gives_id(q, "pane_id"@, (#[trigger] m.panes[i]).id.0)
                ==> session_answer(m, q, io).response.result is Some && tells_pane(
                session_answer(m, q, io).response.result->0,
                m.panes[i],
            ),
{
    lemma_live_pane_named(m, q);
    assert forall|i: int|
        0 <= i < m.panes.len() && gives_id(
            q,
            "pane_id"@,
            (#[trigger] m.panes[i]).id.0,
        ) implies session_answer(m, q, io).response.result is Some && tells_pane(
        session_answer(m, q, io).response.result->0,
        m.panes[i],
    ) by {
        lemma_pane_told(m.panes[i]);
    }
}

/// A live pane that a request names is the one with the record.
proof fn lemma_live_pane_named(m: SessionModel, q: RequestModel)
    requires
        session_ok(m),
    ensures
        forall|i: int|
            0 <= i < m.panes.len() && gives_id(q, "pane_id"@, (#[trigger] m.panes[i]).id.0) ==> {
                &&& registered(m.panes, m.panes[i].id)
                &&& pane_record(m.panes, m.panes[i].id) == Some(m.panes[i])
                &&& pane_ids(m.panes).index_of_first(m.panes[i].id) == Some(i)
                &&& PaneId(m.panes[i].id.0) == m.panes[i].id
            },
        forall|p: PaneId| #[trigger]
            registered(m.panes, p) ==> exists|i: int|
                0 <= i < m.panes.len() && (#[trigger] m.panes[i]).id == p,
{
    let ids = pane_ids(m.panes);
    assert forall|i: int|
        0 <= i < m.panes.len() && gives_id(q, "pane_id"@, (#[trigger] m.panes[i]).id.0) implies {
        &&& registered(m.panes, m.panes[i].id)
        &&& pane_record(m.panes, m.panes[i].id) == Some(m.panes[i])
        &&& pane_ids(m.panes).index_of_first(m.panes[i].id) == Some(i)
        &&& PaneId(m.panes[i].id.0) == m.panes[i].id
    } by {
        lemma_first_is(ids, m.panes[i].id);
        assert(ids[i] == m.panes[i].id);
    }
    assert forall|p: PaneId| #[trigger] registered(m.panes, p) implies exists|i: int|
        0 <= i < m.panes.len() && (#[trigger] m.panes[i]).id == p by {
        let i = choose|i: int| 0 <= i < ids.len() && ids[i] == p;
        assert(m.panes[i].id == p);
    }
}

/// Whether an object tells a pane tree.
pub open spec fn tells_tree(j: JsonModel, t: PaneTree) -> bool
    decreases t,
{
    match t {
        PaneTree::Leaf { pane_id } => {
            &&& j.get("Split"@) is None
            &&& j.get("Leaf"@) is Some
            &&& j.get("Leaf"@)->0.text_at("pane_id"@) == Some(uuid_text(pane_id.0.value))
        },
        PaneTree::Split { direction, ratio, first, second } => {
            let body = j.get("Split"@)->0;
            &&& j.get("Leaf"@) is None
            &&& j.get("Split"@) is Some
            &&& body.text_at("direction"@) == Some(direction)
            &&& body.ratio_at("ratio"@) == Some(ratio)
            &&& body.get("first"@) is Some && tells_tree(body.get("first"@)->0, *first)
            &&& body.get("second"@) is Some && tells_tree(body.get("second"@)->0, *second)
        },
    }
}

proof fn lemma_tree_told(t: PaneTree)
    ensures
        tells_tree(tree_json(t), t),
    decreases t,
{
    reveal_strlit("Leaf");
    reveal_strlit("Split");
    assert("Leaf"@.len() == 4 && "Split"@.len() == 5);
    reveal_with_fuel(crate::socket::json::field_from, 2);
    match t {
        PaneTree::Leaf { pane_id } => {
            let fields = tree_json(t)->Object_0;
            law_first_field_is_read(fields, "Leaf"@, 0);
            law_first_field_is_read(fields[0].1->Object_0, "pane_id"@, 0);
        },
        PaneTree::Split { direction, ratio, first, second } => {
            lemma_tree_told(*first);
            lemma_tree_told(*second);
            let fields = tree_json(t)->Object_0;
            law_first_field_is_read(fields, "Split"@, 0);
            let inner = fields[0].1->Object_0;
            reveal_strlit("direction");
            reveal_strlit("ratio");
            reveal_strlit("first");
            reveal_strlit("second");
            assert("direction"@.len() == 9 && "ratio"@.len() == 5 && "first"@.len() == 5
                && "second"@.len() == 6);
            assert("ratio"@[0] == 'r' && "first"@[0] == 'f');
            law_first_field_is_read(inner, "direction"@, 0);
            law_first_field_is_read(inner, "ratio"@, 1);
            law_first_field_is_read(inner, "first"@, 2);
            law_first_field_is_read(inner, "second"@, 3);
        },
    }
}

/// Whether an object tells a tab.
pub open spec fn tells_tab(j: JsonModel, t: TabModel) -> bool {
    &&& j.text_at("id"@) == Some(uuid_text(t.id.value))
    &&& j.text_at("title"@) == Some(t.title)
    &&& j.get("pane_tree"@) is Some && tells_tree(j.get("pane_tree"@)->0, t.pane_tree)
}

proof fn lemma_tab_told(t: TabModel)
    ensures
        tells_tab(tab_json(t), t),
{
    let fields = tab_json(t)->Object_0;
    reveal_strlit("id");
    reveal_strlit("title");
    reveal_strlit("pane_tree");
    assert("id"@.len() == 2 && "title"@.len() == 5 && "pane_tree"@.len() == 9);
    law_first_field_is_read(fields, "id"@, 0);
    law_first_field_is_read(fields, "title"@, 1);
    law_first_field_is_read(fields, "pane_tree"@, 2);
    lemma_tree_told(t.pane_tree);
}

/// Whether an object tells a workspace with all its tabs.
pub open spec fn tells_workspace(j: JsonModel, w: WorkspaceModel) -> bool {
    &&& j.text_at("id"@) == Some(uuid_text(w.id.value))
    &&& j.text_at("name"@) == Some(w.name)
    &&& j.unsigned_at("active_tab"@) == Some(w.active_tab as u64)
    &&& j.items_at("tabs"@) is Some
    &&& j.items_at("tabs"@)->0.len() == w.tabs.len()
    &&& forall|i: int|
        0 <= i < w.tabs.len() ==> tells_tab(j.items_at("tabs"@)->0[i], #[trigger] w.tabs[i])
}

proof fn lemma_workspace_told(w: WorkspaceModel)
    ensures
        tells_workspace(workspace_json(w), w),
{
    let j = workspace_json(w);
    let fields = j->Object_0;
    reveal_strlit("id");
    reveal_strlit("name");
    reveal_strlit("tabs");
    reveal_strlit("active_tab");
    assert("id"@.len() == 2 && "name"@.len() == 4 && "tabs"@.len() == 4 && "active_tab"@.len()
        == 10);
    assert("name"@[0] == 'n' && "tabs"@[0] == 't');
    law_first_field_is_read(fields, "id"@, 0);
    law_first_field_is_read(fields, "name"@, 1);
    law_first_field_is_read(fields, "tabs"@, 2);
    law_first_field_is_read(fields, "active_tab"@, 3);
    assert forall|i: int| 0 <= i < w.tabs.len() implies tells_tab(
        j.items_at("tabs"@)->0[i],
        #[trigger] w.tabs[i],
    ) by {
        lemma_tab_told(w.tabs[i]);
    }
}

/// The request for the layout is told all of it, workspace by workspace, tab by
/// tab and split by split.
pub proof fn law_layout_is_told_whole(m: SessionModel, q: RequestModel, io: IoModel)
    requires
        method_named(q.method) == Method::GetLayout,
    ensures
        session_answer(m, q, io).session == m,
        session_answer(m, q, io).response.result is Some,
        ({
            let r = session_answer(m, q, io).response.result->0;
            &&& r.unsigned_at("active_workspace"@) == Some(m.layout.active_workspace as u64)
            &&& r.items_at("workspaces"@) is Some
            &&& r.items_at("workspaces"@)->0.len() == m.layout.workspaces.len()
            &&& forall|w: int|
                0 <= w < m.layout.workspaces.len() ==> tells_workspace(
                    r.items_at("workspaces"@)->0[w],
                    #[trigger] m.layout.workspaces[w],
                )
        }),
{
    let r = session_answer(m, q, io).response.result->0;
    reveal_strlit("workspaces");
    reveal_strlit("active_workspace");
    assert("workspaces"@.len() == 10 && "active_workspace"@.len() == 16);
    law_first_field_is_read(r->Object_0, "workspaces"@, 0);
    law_first_field_is_read(r->Object_0, "active_workspace"@, 1);
    assert forall|w: int| 0 <= w < m.layout.workspaces.len() implies tells_workspace(
        r.items_at("workspaces"@)->0[w],
        #[trigger] m.layout.workspaces[w],
    ) by {
        lemma_workspace_told(m.layout.workspaces[w]);
    }
}

/// What was pinned last is what is told: after a request that pins or unpins the
/// session, and is met, every request that asks is told what that one said.
pub proof fn law_pinned_is_told(
    m: SessionModel,
    set: RequestModel,
    ask: RequestModel,
    io: IoModel,
    other: IoModel,
)
    requires
        method_named(set.method) == Method::SetPinned,
        method_named(ask.method) == Method::GetPinned,
    ensures
        session_answer(m, set, io).response.error is None <==> set.params.bool_at("pinned"@) is Some,
        session_answer(m, set, io).response.error is None ==> ({
            let n = session_answer(m, set, io).session;
            &&& session_answer(n, ask, other).response.result is Some
            &&& session_answer(n, ask, other).response.result->0.bool_at("pinned"@)
                == set.params.bool_at("pinned"@)
            &&& session_answer(n, ask, other).session == n
            &&& n.panes == m.panes
            &&& n.layout == m.layout
            &&& n.logs == m.logs
            &&& n.events == m.events
            &&& n.ring_kb == m.ring_kb
            &&& n.max_mb == m.max_mb
        }),
{
    let n = session_answer(m, set, io).session;
    let r = session_answer(n, ask, other).response.result->0;
    law_first_field_is_read(r->Object_0, "pinned"@, 0);
}

// ---------------------------------------------------------------------------
// Terminals
// ---------------------------------------------------------------------------
/// The request to resize a live pane needs its terminal resized to the size asked
/// for, and nothing else; once that went well its record has that size, and
/// nothing else has changed.
pub proof fn law_resize_gives_the_size_asked_for(
    m: SessionModel,
    q: RequestModel,
    io: IoModel,
    i: int,
)
    requires
        session_ok(m),
        method_named(q.method) == Method::ResizePane,
        0 <= i < m.panes.len(),
        gives_id(q, "pane_id"@, m.panes[i].id.0),
        q.params.unsigned_at("rows"@) is Some,
        q.params.unsigned_at("cols"@) is Some,
    ensures
        needed(m, q, io.cwd_is_dir) matches EffectModel::Resize { pane_id, size } && pane_id
            == m.panes[i].id && is_asked(q, "rows"@, 0, size.rows) && is_asked(
            q,
            "cols"@,
            0,
            size.cols,
        ) && size.pixel_width == 0 && size.pixel_height == 0,
        session_answer(m, q, io).response.error is None <==> io.done is Ok,
        io.done is Ok ==> ({
            let n = session_answer(m, q, io).session;
            &&& n.panes.len() == m.panes.len()
            &&& is_asked(q, "rows"@, 0, n.panes[i].rows)
            &&& is_asked(q, "cols"@, 0, n.panes[i].cols)
            &&& n.panes[i].id == m.panes[i].id
            &&& n.panes[i].pid == m.panes[i].pid
            &&& n.panes[i].cwd == m.panes[i].cwd
            &&& n.panes[i].title == m.panes[i].title
            &&& forall|j: int|
                0 <= j < m.panes.len() && j != i ==> #[trigger] n.panes[j] == m.panes[j]
            &&& n.layout == m.layout
            &&& settings_kept(m, n)
            &&& n.logs == m.logs
            &&& n.events == m.events
        }),
{
    lemma_live_pane_named(m, q);
    assert(registered(m.panes, m.panes[i].id));
    let rows = q.params.unsigned_at("rows"@)->0;
    let cols = q.params.unsigned_at("cols"@)->0;
    let k = rows as int / 65536;
    let l = cols as int / 65536;
    assert(rows == (k * 65536) + (rows % 65536));
    assert(cols == (l * 65536) + (cols % 65536));
    if let EffectModel::Resize { pane_id, size } = needed(m, q, io.cwd_is_dir) {
        assert(rows == (k * 65536) + size.rows);
        assert(cols == (l * 65536) + size.cols);
    }
}

/// The request to type into a live pane needs the bytes that its text stands for
/// written to that pane, and the one to interrupt it an interrupt of that pane;
/// what was typed changes nothing of the session.
pub proof fn law_input_goes_to_the_named_pane(
    m: SessionModel,
    q: RequestModel,
    io: IoModel,
    pane: PaneId,
)
    requires
        session_ok(m),
        gives_id(q, "pane_id"@, pane.0),
        registered(m.panes, pane),
    ensures
        method_named(q.method) == Method::SendInput && q.params.text_at("data"@) is Some
            && base64_bytes_of(q.params.text_at("data"@)->0) is Some ==> needed(m, q, io.cwd_is_dir)
            == (EffectModel::Write {
            pane_id: pane,
            data: base64_bytes_of(q.params.text_at("data"@)->0)->0,
        }) && (session_answer(m, q, io).response.error is None <==> io.done is Ok),
        method_named(q.method) == Method::SendSigint ==> needed(m, q, io.cwd_is_dir) == (
        EffectModel::Interrupt { pane_id: pane }) && (session_answer(m, q, io).response.error
            is None <==> io.done is Ok),
        method_named(q.method) == Method::SendInput || method_named(q.method) == Method::SendSigint
            || method_named(q.method) == Method::Notify ==> session_answer(m, q, io).session == m,
{
}

// ---------------------------------------------------------------------------
// Workspaces
// ---------------------------------------------------------------------------
/// The position that a request names for a workspace.
pub open spec fn names_workspace(q: RequestModel, m: SessionModel, w: int) -> bool {
    &&& q.params.unsigned_at("workspace_idx"@) is Some
    &&& q.params.unsigned_at("workspace_idx"@)->0 as usize == w
    &&& 0 <= w < m.layout.workspaces.len()
}

/// The request to activate a workspace is met exactly where it names one there is;
/// that one is then active, a change is announced, and nothing else has changed.
pub proof fn law_named_workspace_becomes_active(m: SessionModel, q: RequestModel, io: IoModel)
    requires
        session_ok(m),
        method_named(q.method) == Method::SetActiveWorkspace,
    ensures
        session_answer(m, q, io).response.error is None <==> exists|w: int| #[trigger]
            names_workspace(q, m, w),
        forall|w: int| #[trigger]
            names_workspace(q, m, w) ==> ({
                let n = session_answer(m, q, io).session;
                &&& n.layout.active_workspace == w
                &&& n.layout.workspaces == m.layout.workspaces
                &&& rest_kept(m, n)
                &&& n.events == if m.layout.active_workspace == w {
                    m.events
                } else {
                    m.events.push(
                        EventModel::ActiveWorkspaceChanged { workspace_idx: w as usize },
                    )
                }
            }),
{
    if session_answer(m, q, io).response.error is None {
        assert(names_workspace(q, m, q.params.unsigned_at("workspace_idx"@)->0 as usize as int));
    }
}

/// The request to rename a workspace is met exactly where it gives a name to a
/// workspace there is; that one then has the name, a change is announced, and
/// nothing else has changed.
pub proof fn law_named_workspace_gets_the_name(m: SessionModel, q: RequestModel, io: IoModel)
    requires
        session_ok(m),
        method_named(q.method) == Method::RenameWorkspace,
    ensures
        session_answer(m, q, io).response.error is None <==> q.params.text_at("name"@) is Some
            && exists|w: int| #[trigger] names_workspace(q, m, w),
        forall|w: int| #[trigger]
            names_workspace(q, m, w) && q.params.text_at("name"@) is Some ==> ({
                let n = session_answer(m, q, io).session;
                let name = q.params.text_at("name"@)->0;
                let before = m.layout.workspaces[w];
                let after = n.layout.workspaces[w];
                &&& after.name == name
                &&& after.id == before.id
                &&& after.tabs == before.tabs
                &&& after.active_tab == before.active_tab
                &&& n.layout.workspaces == m.layout.workspaces.update(w, after)
                &&& n.layout.active_workspace == m.layout.active_workspace
                &&& rest_kept(m, n)
                &&& n.events == if before.name == name {
                    m.events
                } else {
                    m.events.push(
                        EventModel::WorkspaceRenamed {
                            workspace_idx: w as usize,
                            workspace_id: before.id,
                            name,
                        },
                    )
                }
            }),
{
    if session_answer(m, q, io).response.error is None {
        assert(names_workspace(q, m, q.params.unsigned_at("workspace_idx"@)->0 as usize as int));
    }
    assert forall|w: int| #[trigger]
        names_workspace(q, m, w) && q.params.text_at("name"@) is Some implies session_answer(
        m,
        q,
        io,
    ).session.layout.workspaces == m.layout.workspaces.update(
        w,
        session_answer(m, q, io).session.layout.workspaces[w],
    ) by {
        assert(session_answer(m, q, io).session.layout.workspaces =~= m.layout.workspaces.update(
            w,
            session_answer(m, q, io).session.layout.workspaces[w],
        ));
    }
}

/// The panes of some tabs are those that stand in one of them.
pub proof fn law_panes_of_tabs(tabs: Seq<TabModel>, pane: PaneId)
    ensures
        tabs_leaves(tabs).contains(pane) <==> exists|t: int|
            0 <= t < tabs.len() && tree_has((#[trigger] tabs[t]).pane_tree, pane),
    decreases tabs.len(),
{
    if tabs.len() > 0 {
        let rest = tabs.drop_last();
        law_panes_of_tabs(rest, pane);
        let a = tabs_leaves(rest);
        let b = leaves(tabs.last().pane_tree);
        if (a + b).contains(pane) {
            let i = choose|i: int| 0 <= i < (a + b).len() && (a + b)[i] == pane;
            if i < a.len() {
                assert(a[i] == pane);
                let t = choose|t: int|
                    0 <= t < rest.len() && tree_has((#[trigger] rest[t]).pane_tree, pane);
                assert(tree_has(tabs[t].pane_tree, pane));
            } else {
                assert(b[i - a.len()] == pane);
                assert(tree_has(tabs[tabs.len() - 1].pane_tree, pane));
            }
        }
        if exists|t: int| 0 <= t < tabs.len() && tree_has((#[trigger] tabs[t]).pane_tree, pane) {
            let t = choose|t: int|
                0 <= t < tabs.len() && tree_has((#[trigger] tabs[t]).pane_tree, pane);
            if t < rest.len() {
                assert(tree_has(rest[t].pane_tree, pane));
                let i = choose|i: int| 0 <= i < a.len() && a[i] == pane;
                assert((a + b)[i] == pane);
            } else {
                let i = choose|i: int| 0 <= i < b.len() && b[i] == pane;
                assert((a + b)[a.len() + i] == pane);
            }
        }
    }
}

/// The request to delete a workspace is met exactly where it names one of several;
/// that one is then gone with its panes, the others stay in their order, and the
/// active one stays active. Where the active one goes, the one behind it becomes
/// active, or the last.
pub proof fn law_named_workspace_goes(m: SessionModel, q: RequestModel, io: IoModel)
    requires
        session_ok(m),
        m.layout.workspaces.len() <= usize::MAX,
        method_named(q.method) == Method::DeleteWorkspace,
    ensures
        session_answer(m, q, io).response.error is None <==> m.layout.workspaces.len() > 1
            && exists|w: int| #[trigger] names_workspace(q, m, w),
        forall|w: int| #[trigger]
            names_workspace(q, m, w) && m.layout.workspaces.len() > 1 ==> ({
                let n = session_answer(m, q, io).session;
                let active = n.layout.active_workspace as int;
                &&& n.layout.workspaces == m.layout.workspaces.remove(w)
                &&& 0 <= active < n.layout.workspaces.len()
                &&& m.layout.active_workspace != w ==> n.layout.workspaces[active]
                    == m.layout.workspaces[m.layout.active_workspace as int]
                &&& m.layout.active_workspace < w ==> active == m.layout.active_workspace
                &&& m.layout.active_workspace > w ==> active == m.layout.active_workspace - 1
                &&& m.layout.active_workspace == w && w + 1 < m.layout.workspaces.len() ==> active
                    == w
                &&& m.layout.active_workspace == w && w + 1 == m.layout.workspaces.len() ==> active
                    == w - 1
                &&& exactly_gone(m, n, tabs_leaves(m.layout.workspaces[w].tabs))
                &&& settings_kept(m, n)
                &&& n.events.last() == (EventModel::WorkspaceDeleted {
                    workspace_idx: w as usize,
                    workspace_id: m.layout.workspaces[w].id,
                })
            }),
{
    if session_answer(m, q, io).response.error is None {
        assert(names_workspace(q, m, q.params.unsigned_at("workspace_idx"@)->0 as usize as int));
    }
    if let Some(k) = q.params.unsigned_at("workspace_idx"@) {
        let w = k as usize as int;
        if w < m.layout.workspaces.len() && m.layout.workspaces.len() > 1 {
            let n = session_answer(m, q, io).session;
            let mid = SessionModel { layout: n.layout, ..m };
            let ids = tabs_leaves(m.layout.workspaces[w].tabs);
            lemma_gone_settings(mid, ids);
            lemma_gone_settings(
                SessionModel {
                    layout: LayoutModel {
                        workspaces: m.layout.workspaces.remove(w),
                        active_workspace: crate::session::model::active_after_delete(
                            m.layout.active_workspace,
                            w,
                            (m.layout.workspaces.len() - 1) as nat,
                        ),
                    },
                    ..m
                },
                ids,
            );
            assert forall|p: PaneId|
                #![trigger pane_record(n.panes, p)]
                pane_record(n.panes, p) == if ids.contains(p) {
                    None
                } else {
                    pane_record(m.panes, p)
                } by {
                lemma_gone_records(mid, ids, p);
            }
            assert forall|p: PaneId|
                #![trigger crate::session::model::log_of(n.logs, p)]
                crate::session::model::log_of(n.logs, p) == if ids.contains(p) {
                    None
                } else {
                    crate::session::model::log_of(m.logs, p)
                } by {
                lemma_gone_records(mid, ids, p);
            }
        }
    }
}

// ---------------------------------------------------------------------------
// Ratios
// ---------------------------------------------------------------------------
/// A split by the pane that heads it, its direction and its ratio.
pub ghost struct SplitAt {
    pub head: PaneId,
    pub direction: Seq<char>,
    pub ratio: Ratio,
}

/// The splits of a tree, each before those in it.
pub open spec fn splits_of(t: PaneTree) -> Seq<SplitAt>
    decreases t,
{
    match t {
        PaneTree::Leaf { .. } => Seq::empty(),
        PaneTree::Split { direction, ratio, first, second } => seq![
            SplitAt { head: leaves(*first)[0], direction, ratio },
        ] + splits_of(*first) + splits_of(*second),
    }
}

/// Whether trees differ in ratios at most.
pub open spec fn same_shape(a: PaneTree, b: PaneTree) -> bool
    decreases a,
{
    match a {
        PaneTree::Leaf { pane_id } => b == a,
        PaneTree::Split { direction, first, second, .. } => {
            &&& b is Split
            &&& b->direction == direction
            &&& same_shape(*first, *b->first)
            &&& same_shape(*second, *b->second)
        },
    }
}

/// Whether a position is the first among some splits that a pane heads.
pub open spec fn first_headed(splits: Seq<SplitAt>, head: PaneId, k: int) -> bool {
    &&& 0 <= k < splits.len()
    &&& splits[k].head == head
    &&& forall|j: int| 0 <= j < k ==> (#[trigger] splits[j]).head != head
}

/// Whether a tree is another one in which the first split that a pane heads has a
/// ratio, and nothing else has changed.
pub open spec fn first_split_set(a: PaneTree, b: PaneTree, head: PaneId, ratio: Ratio) -> bool {
    &&& same_shape(a, b)
    &&& splits_of(b).len() == splits_of(a).len()
    &&& forall|k: int|
        0 <= k < splits_of(a).len() ==> #[trigger] splits_of(b)[k] == (SplitAt {
            ratio: if first_headed(splits_of(a), head, k) {
                ratio
            } else {
                splits_of(a)[k].ratio
            },
            ..splits_of(a)[k]
        })
}

proof fn lemma_same_shape(t: PaneTree)
    ensures
        same_shape(t, t),
    decreases t,
{
    if let PaneTree::Split { first, second, .. } = t {
        lemma_same_shape(*first);
        lemma_same_shape(*second);
    }
}

proof fn lemma_ratio_leaves(t: PaneTree, head: PaneId, ratio: Ratio)
    ensures
        leaves(tree_with_ratio(t, head, ratio)) == leaves(t),
    decreases t,
{
    if let PaneTree::Split { first, second, .. } = t {
        lemma_ratio_leaves(*first, head, ratio);
        lemma_ratio_leaves(*second, head, ratio);
    }
}

proof fn lemma_heads(t: PaneTree, head: PaneId)
    ensures
        heads_a_split(t, head) <==> exists|k: int|
            0 <= k < splits_of(t).len() && (#[trigger] splits_of(t)[k]).head == head,
    decreases t,
{
    if let PaneTree::Split { direction, ratio, first, second } = t {
        lemma_heads(*first, head);
        lemma_heads(*second, head);
        let top = SplitAt { head: leaves(*first)[0], direction, ratio };
        let a = splits_of(*first);
        let b = splits_of(*second);
        let all = splits_of(t);
        assert(all[0] == top);
        if heads_a_split(t, head) {
            if leaves(*first)[0] == head {
                assert(all[0].head == head);
            } else if heads_a_split(*first, head) {
                let k = choose|k: int| 0 <= k < a.len() && (#[trigger] a[k]).head == head;
                assert(all[k + 1].head == head);
            } else {
                let k = choose|k: int| 0 <= k < b.len() && (#[trigger] b[k]).head == head;
                assert(all[k + 1 + a.len()].head == head);
            }
        }
        if exists|k: int| 0 <= k < all.len() && (#[trigger] all[k]).head == head {
            let k = choose|k: int| 0 <= k < all.len() && (#[trigger] all[k]).head == head;
            if k > 0 && k <= a.len() {
                assert(a[k - 1].head == head);
            } else if k > a.len() {
                assert(b[k - 1 - a.len()].head == head);
            }
        }
    }
}

/// Giving a split a ratio by the pane that heads it changes the ratio of the first
/// such split, and nothing else.
pub proof fn law_ratio_of_the_first_split_headed(t: PaneTree, head: PaneId, ratio: Ratio)
    ensures
        first_split_set(t, tree_with_ratio(t, head, ratio), head, ratio),
    decreases t,
{
    if let PaneTree::Split { direction, ratio: r, first, second } = t {
        law_ratio_of_the_first_split_headed(*first, head, ratio);
        law_ratio_of_the_first_split_headed(*second, head, ratio);
        lemma_same_shape(*first);
        lemma_same_shape(*second);
        lemma_heads(*first, head);
        lemma_heads(*second, head);
        lemma_ratio_leaves(*first, head, ratio);
        let a = splits_of(*first);
        let b = splits_of(*second);
        let after = tree_with_ratio(t, head, ratio);
        let a2 = splits_of(*after->first);
        let b2 = splits_of(*after->second);
        let before_all = splits_of(t);
        let after_all = splits_of(after);
        assert(before_all[0] == (SplitAt { head: leaves(*first)[0], direction, ratio: r }));
        assert forall|k: int| 0 <= k < a.len() implies before_all[k + 1] == #[trigger] a[k] by {}
        assert forall|k: int| 0 <= k < b.len() implies before_all[k + 1 + a.len()]
            == #[trigger] b[k] by {}
        assert forall|k: int| 0 <= k < before_all.len() implies #[trigger] after_all[k] == (SplitAt {
            ratio: if first_headed(before_all, head, k) {
                ratio
            } else {
                before_all[k].ratio
            },
            ..before_all[k]
        }) by {
            if leaves(*first)[0] == head {
                if k > 0 {
                    assert(before_all[0].head == head);
                }
            } else if heads_a_split(*first, head) {
                let i = choose|i: int| 0 <= i < a.len() && (#[trigger] a[i]).head == head;
                if k == 0 {
                } else if k <= a.len() {
                    assert(after_all[k] == a2[k - 1]);
                    assert(before_all[k] == a[k - 1]);
                    if first_headed(a, head, k - 1) {
                        assert forall|j: int| 0 <= j < k implies (#[trigger] before_all[j]).head
                            != head by {
                            if j > 0 {
                                assert(before_all[j] == a[j - 1]);
                            }
                        }
                    }
                    if first_headed(before_all, head, k) {
                        assert forall|j: int| 0 <= j < k - 1 implies (#[trigger] a[j]).head
                            != head by {
                            assert(before_all[j + 1] == a[j]);
                        }
                    }
                } else {
                    assert(before_all[i + 1].head == head);
                    assert(after_all[k] == b2[k - 1 - a2.len()]);
                }
            } else {
                if k == 0 {
                } else if k <= a.len() {
                    assert(after_all[k] == a[k - 1]);
                    assert(before_all[k] == a[k - 1]);
                } else {
                    let h = k - 1 - a.len();
                    assert(after_all[k] == b2[h]);
                    assert(before_all[k] == b[h]);
                    if first_headed(b, head, h) {
                        assert forall|j: int| 0 <= j < k implies (#[trigger] before_all[j]).head
                            != head by {
                            if 0 < j <= a.len() {
                                assert(before_all[j] == a[j - 1]);
                            } else if j > a.len() {
                                assert(before_all[j] == b[j - 1 - a.len()]);
                            }
                        }
                    }
                    if first_headed(before_all, head, k) {
                        assert forall|j: int| 0 <= j < h implies (#[trigger] b[j]).head != head by {
                            assert(before_all[j + 1 + a.len()] == b[j]);
                        }
                    }
                }
            }
        }
    }
}

/// Whether a ratio is another one moved between the smallest and the largest that
/// a split may have.
pub open spec fn is_within_span(asked: Ratio, given: Ratio) -> bool {
    if asked.is_nan() {
        given == asked
    } else if asked.rank() < MIN_RATIO_BITS {
        given.bits == MIN_RATIO_BITS
    } else if asked.rank() > MAX_RATIO_BITS {
        given.bits == MAX_RATIO_BITS
    } else {
        given == asked
    }
}

/// The request to set one ratio sets it in every tab, at the first split that the
/// named pane heads there, moved into the span that a split may have. No split,
/// tab or workspace comes, goes or changes otherwise, and nothing is announced.
pub proof fn law_ratio_is_set_at_the_split_headed(
    m: SessionModel,
    q: RequestModel,
    io: IoModel,
    pane: PaneId,
    ratio: Ratio,
)
    requires
        method_named(q.method) == Method::UpdateSplitRatios,
        q.params.items_at("ratios"@) is Some,
        q.params.items_at("ratios"@)->0.len() == 1,
        gives_id(
            RequestModel { params: q.params.items_at("ratios"@)->0[0], ..q },
            "pane_id"@,
            pane.0,
        ),
        q.params.items_at("ratios"@)->0[0].ratio_at("ratio"@) == Some(ratio),
    ensures
        session_answer(m, q, io).response.error is None,
        exists|given: Ratio| #[trigger]
            is_within_span(ratio, given) && ({
                let n = session_answer(m, q, io).session;
                &&& rest_kept(m, n)
                &&& n.events == m.events
                &&& n.layout.active_workspace == m.layout.active_workspace
                &&& n.layout.workspaces.len() == m.layout.workspaces.len()
                &&& forall|w: int|
                    0 <= w < m.layout.workspaces.len() ==> {
                        let before = m.layout.workspaces[w];
                        let after = #[trigger] n.layout.workspaces[w];
                        &&& after.id == before.id
                        &&& after.name == before.name
                        &&& after.active_tab == before.active_tab
                        &&& after.tabs.len() == before.tabs.len()
                    }
                &&& forall|w: int, t: int| #[trigger]
                    has_place(m.layout, w, t) ==> {
                        let before = tab_at(m.layout, w, t);
                        let after = tab_at(n.layout, w, t);
                        &&& after.id == before.id
                        &&& after.title == before.title
                        &&& first_split_set(before.pane_tree, after.pane_tree, pane, given)
                    }
            }),
{
    let items = q.params.items_at("ratios"@)->0;
    reveal_with_fuel(ratio_updates, 2);
    reveal_with_fuel(layout_with_ratios, 2);
    assert(items.last() == items[0]);
    assert(ratio_updates(items.drop_last()) =~= Seq::empty());
    assert(ratio_updates(items) =~= seq![(pane, ratio)]);
    let given = ratio.clamped();
    assert(is_within_span(ratio, given));
    let n = session_answer(m, q, io).session;
    assert(n.layout == layout_with_ratio(m.layout, pane, given)) by {
        let u = ratio_updates(items);
        assert(u.last() == (pane, ratio));
        assert(layout_with_ratios(m.layout, u.drop_last()) == m.layout);
    }
    assert forall|w: int, t: int| #[trigger] has_place(m.layout, w, t) implies first_split_set(
        tab_at(m.layout, w, t).pane_tree,
        tab_at(n.layout, w, t).pane_tree,
        pane,
        given,
    ) by {
        law_ratio_of_the_first_split_headed(tab_at(m.layout, w, t).pane_tree, pane, given);
    }
}

/// A list of ratios is set one after the other: the request with two lists put
/// together does what one with the first and then one with the second do. An entry
/// without a pane or a ratio does nothing.
pub proof fn law_ratios_are_set_one_after_the_other(
    m: SessionModel,
    both: RequestModel,
    one: RequestModel,
    other: RequestModel,
    io: IoModel,
)
    requires
        method_named(both.method) == Method::UpdateSplitRatios,
        method_named(one.method) == Method::UpdateSplitRatios,
        method_named(other.method) == Method::UpdateSplitRatios,
        one.params.items_at("ratios"@) is Some,
        other.params.items_at("ratios"@) is Some,
        both.params.items_at("ratios"@) == Some(
            one.params.items_at("ratios"@)->0 + other.params.items_at("ratios"@)->0,
        ),
    ensures
        session_answer(m, both, io).session == session_answer(
            session_answer(m, one, io).session,
            other,
            io,
        ).session,
        (forall|i: int|
            0 <= i < one.params.items_at("ratios"@)->0.len() ==> (
            #[trigger] one.params.items_at("ratios"@)->0[i].text_at("pane_id"@) is None
                || one.params.items_at("ratios"@)->0[i].ratio_at("ratio"@) is None))
            ==> session_answer(m, one, io).session == m,
{
    let a = one.params.items_at("ratios"@)->0;
    let b = other.params.items_at("ratios"@)->0;
    lemma_updates_together(a, b);
    lemma_ratios_together(m.layout, ratio_updates(a), ratio_updates(b));
    if forall|i: int|
        0 <= i < a.len() ==> (#[trigger] a[i].text_at("pane_id"@) is None || a[i].ratio_at(
            "ratio"@,
        ) is None) {
        lemma_no_updates(a);
    }
}

proof fn lemma_no_updates(a: Seq<JsonModel>)
    requires
        forall|i: int|
            0 <= i < a.len() ==> (#[trigger] a[i].text_at("pane_id"@) is None || a[i].ratio_at(
                "ratio"@,
            ) is None),
    ensures
        ratio_updates(a).len() == 0,
    decreases a.len(),
{
    if a.len() > 0 {
        assert(a[a.len() - 1].text_at("pane_id"@) is None || a[a.len() - 1].ratio_at("ratio"@)
            is None);
        let rest = a.drop_last();
        assert forall|i: int| 0 <= i < rest.len() implies (#[trigger] rest[i].text_at("pane_id"@)
            is None || rest[i].ratio_at("ratio"@) is None) by {
            assert(a[i].text_at("pane_id"@) is None || a[i].ratio_at("ratio"@) is None);
        }
        lemma_no_updates(rest);
    }
}

proof fn lemma_updates_together(a: Seq<JsonModel>, b: Seq<JsonModel>)
    ensures
        ratio_updates(a + b) == ratio_updates(a) + ratio_updates(b),
    decreases b.len(),
{
    if b.len() == 0 {
        assert(a + b =~= a);
    } else {
        assert((a + b).drop_last() =~= a + b.drop_last());
        lemma_updates_together(a, b.drop_last());
    }
}

proof fn lemma_ratios_together(
    l: LayoutModel,
    a: Seq<(PaneId, Ratio)>,
    b: Seq<(PaneId, Ratio)>,
)
    ensures
        layout_with_ratios(l, a + b) == layout_with_ratios(layout_with_ratios(l, a), b),
    decreases b.len(),
{
    if b.len() == 0 {
        assert(a + b =~= a);
    } else {
        assert((a + b).drop_last() =~= a + b.drop_last());
        lemma_ratios_together(l, a, b.drop_last());
    }
}

// ---------------------------------------------------------------------------
// Refusals
// ---------------------------------------------------------------------------
/// Whether a method is about one pane that its request names.
pub open spec fn is_about_a_pane(method: Method) -> bool {
    method is ClosePane || method is SplitPane || method is SendInput || method is GetPaneInfo
        || method is ResizePane || method is SendSigint || method is Notify
}

/// Whether a request names no live pane.
pub open spec fn names_no_pane(m: SessionModel, q: RequestModel) -> bool {
    forall|i: int|
        0 <= i < m.panes.len() ==> !gives_id(q, "pane_id"@, (#[trigger] m.panes[i]).id.0)
}

/// A request about a pane that names no live one is refused for its parameters, and one
/// for a method that is not known as such; in either case nothing has to be done, and
/// nothing changes.
pub proof fn law_request_without_its_pane_is_refused(m: SessionModel, q: RequestModel, io: IoModel)
    requires
        session_ok(m),
        method_named(q.method) is Unknown || (is_about_a_pane(method_named(q.method))
            && names_no_pane(m, q)),
    ensures
        session_answer(m, q, io).response.error is Some,
        session_answer(m, q, io).response.error->0.code == if method_named(q.method) is Unknown {
            -32601i32
        } else {
            -32602i32
        },
        session_answer(m, q, io).session == m,
        needed(m, q, io.cwd_is_dir) is Nothing,
{
    if !(method_named(q.method) is Unknown) {
        lemma_no_pane_named(m, q);
    }
}

proof fn lemma_no_pane_named(m: SessionModel, q: RequestModel)
    requires
        session_ok(m),
        names_no_pane(m, q),
    ensures
        named_pane(m, q.params) is Err,
{
    if let Some(raw) = q.params.text_at("pane_id"@) {
        if let Some(v) = crate::ids::uuid_of_text(raw) {
            let p = PaneId(crate::ids::Uuid { value: v });
            if registered(m.panes, p) {
                let ids = pane_ids(m.panes);
                let i = choose|i: int| 0 <= i < ids.len() && ids[i] == p;
                assert(m.panes[i].id == p);
                assert(gives_id(q, "pane_id"@, m.panes[i].id.0));
            }
        }
    }
}

/// Whether a response is one of the protocol with a result or an error, and not both.
pub open spec fn result_or_error(r: ResponseModel) -> bool {
    &&& r.error is Some <==> r.result is None
    &&& r.jsonrpc == "2.0"@
}

/// Every answer holds a result or an error, and never both.
pub proof fn law_answer_is_a_result_or_an_error(m: SessionModel, q: RequestModel, io: IoModel)
    ensures
        result_or_error(session_answer(m, q, io).response),
{
    match method_named(q.method) {
        Method::ListTabs => {
            assert(result_or_error(session_answer(m, q, io).response));
        },
        Method::GetLayout => {
            assert(result_or_error(session_answer(m, q, io).response));
        },
        Method::NewTab => {
            assert(result_or_error(session_answer(m, q, io).response));
        },
        Method::CloseTab => {
            assert(result_or_error(session_answer(m, q, io).response));
        },
        Method::FocusTab => {
            assert(result_or_error(session_answer(m, q, io).response));
        },
        Method::SetActiveWorkspace => {
            assert(result_or_error(session_answer(m, q, io).response));
        },
        Method::SplitPane => {
            assert(result_or_error(session_answer(m, q, io).response));
        },
        Method::MoveTab => {
            assert(result_or_error(session_answer(m, q, io).response));
        },
        Method::SendInput => {
            assert(result_or_error(session_answer(m, q, io).response));
        },
        Method::GetPaneInfo => {
            assert(result_or_error(session_answer(m, q, io).response));
        },
        Method::ResizePane => {
            assert(result_or_error(session_answer(m, q, io).response));
        },
        Method::SendSigint => {
            assert(result_or_error(session_answer(m, q, io).response));
        },
        Method::Notify => {
            assert(result_or_error(session_answer(m, q, io).response));
        },
        Method::ClosePane => {
            assert(result_or_error(session_answer(m, q, io).response));
        },
        Method::CreateWorkspace => {
            assert(result_or_error(session_answer(m, q, io).response));
        },
        Method::RenameWorkspace => {
            assert(result_or_error(session_answer(m, q, io).response));
        },
        Method::DeleteWorkspace => {
            assert(result_or_error(session_answer(m, q, io).response));
        },
        Method::UpdateSplitRatios => {
            assert(result_or_error(session_answer(m, q, io).response));
        },
        Method::SetPinned => {
            assert(result_or_error(session_answer(m, q, io).response));
        },
        Method::GetPinned => {
            assert(result_or_error(session_answer(m, q, io).response));
        },
        _ => {
            assert(result_or_error(session_answer(m, q, io).response));
        },
    }
}

} // verus!

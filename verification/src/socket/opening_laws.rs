//! What the requests that open tabs, panes and workspaces do to a session, told by
//! what can be seen of the session before and after them.

use vstd::prelude::*;

use crate::ids::{uuid_text, PaneId};
use crate::ratio::{HALF_BITS, Ratio};
use crate::seqs::lemma_first_is;
use crate::session::events::EventModel;
use crate::session::laws::{is_part_of, law_live_pane_has_one_place, law_split_makes_a_pair};
use crate::session::layout::{
    find_pane, law_split_inserts_behind_target, leaves, tree_has, PaneTree,
};
use crate::session::model::{pane_ids, pane_record, registered, session_ok, SessionModel};
use crate::socket::answers::{needed, session_answer, texts, EffectModel, IoModel, RequestModel};
use crate::socket::json::{field_from, JsonModel};
use crate::socket::methods::{method_named, Method};
use crate::socket::request_laws::{gives_id, has_place, only_one_changed, settings_kept, tab_at};

verus! {

/// The first field with a name is the one that is read.
pub proof fn law_first_field_is_read(
    fields: Seq<(Seq<char>, JsonModel)>,
    key: Seq<char>,
    i: int,
)
    requires
        0 <= i < fields.len(),
        fields[i].0 == key,
        forall|j: int| 0 <= j < i ==> (#[trigger] fields[j]).0 != key,
    ensures
        JsonModel::Object(fields).get(key) == Some(fields[i].1),
{
    lemma_field_from(fields, key, 0, i);
}

proof fn lemma_field_from(
    fields: Seq<(Seq<char>, JsonModel)>,
    key: Seq<char>,
    from: int,
    i: int,
)
    requires
        0 <= from <= i < fields.len(),
        fields[i].0 == key,
        forall|j: int| from <= j < i ==> (#[trigger] fields[j]).0 != key,
    ensures
        field_from(fields, key, from) == Some(fields[i].1),
    decreases i - from,
{
    if from < i {
        assert(fields[from].0 != key);
        lemma_field_from(fields, key, from + 1, i);
    }
}

/// Whether a size is the one that a request asks for under a key, or the usual one.
pub open spec fn is_asked(q: RequestModel, key: Seq<char>, usual: int, size: u16) -> bool {
    match q.params.unsigned_at(key) {
        Some(n) => exists|k: int| 0 <= k && n == #[trigger] (k * 65536) + size,
        None => size == usual,
    }
}

proof fn lemma_asked(q: RequestModel, key: Seq<char>, usual: int, size: u16)
    requires
        match q.params.unsigned_at(key) {
            Some(n) => size == n % 65536,
            None => size == usual,
        },
    ensures
        is_asked(q, key, usual, size),
{
    if let Some(n) = q.params.unsigned_at(key) {
        let k = n as int / 65536;
        assert(n == (k * 65536) + size);
    }
}

/// Whether a pane starts in the directory that a request asks for, where that is
/// one, and in another one else.
pub open spec fn starts_where_asked(
    q: RequestModel,
    io: IoModel,
    cwd: Seq<char>,
    other: Seq<char>,
) -> bool {
    if q.params.text_at("cwd"@) is Some && q.params.text_at("cwd"@)->0.len() > 0 && io.cwd_is_dir {
        q.params.text_at("cwd"@) == Some(cwd)
    } else {
        cwd == other
    }
}

/// The home directory, or the root where there is none.
pub open spec fn home_or_root(io: IoModel) -> Seq<char> {
    match io.home {
        Some(h) => h,
        None => "/"@,
    }
}

/// The position of the workspace in which a request opens a tab.
pub open spec fn tab_goes_to(q: RequestModel) -> int {
    if q.params.unsigned_at("workspace_idx"@) is Some {
        q.params.unsigned_at("workspace_idx"@)->0 as usize as int
    } else {
        0
    }
}

/// The request for a new tab is met exactly where its workspace exists and its
/// process could be started. The tab then stands behind the others with the new
/// pane in it, of the size and in the directory asked for; the active tab stays
/// active; the pane and the tab are announced, and their ids are told.
pub proof fn law_new_tab_stands_behind_the_others(m: SessionModel, q: RequestModel, io: IoModel)
    requires
        session_ok(m),
        method_named(q.method) == Method::NewTab,
    ensures
        session_answer(m, q, io).response.error is None <==> tab_goes_to(q)
            < m.layout.workspaces.len() && io.spawned is Ok,
        session_answer(m, q, io).response.error is None ==> ({
            let n = session_answer(m, q, io).session;
            let w = tab_goes_to(q);
            let before = m.layout.workspaces[w];
            let after = n.layout.workspaces[w];
            let pane = n.panes.last();
            &&& n.panes == m.panes.push(pane)
            &&& pane.id == io.pane_id
            &&& pane.pid == io.spawned->Ok_0
            &&& pane.title.len() == 0
            &&& is_asked(q, "rows"@, 24, pane.rows)
            &&& is_asked(q, "cols"@, 80, pane.cols)
            &&& starts_where_asked(q, io, pane.cwd, home_or_root(io))
            &&& after.tabs.len() == before.tabs.len() + 1
            &&& after.tabs.drop_last() == before.tabs
            &&& after.tabs.last().id == io.tab_id
            &&& after.tabs.last().title.len() == 0
            &&& after.tabs.last().pane_tree == (PaneTree::Leaf { pane_id: io.pane_id })
            &&& after.active_tab == before.active_tab
            &&& only_one_changed(m.layout, n.layout, w)
            &&& settings_kept(m, n)
            &&& n.logs == m.logs
            &&& n.events == m.events.push(EventModel::PaneCreated { pane_id: io.pane_id }).push(
                EventModel::TabCreated {
                    workspace_idx: w as usize,
                    tab_id: io.tab_id,
                    pane_id: io.pane_id,
                },
            )
            &&& session_answer(m, q, io).response.result is Some
            &&& session_answer(m, q, io).response.result->0.text_at("tab_id"@) == Some(
                uuid_text(io.tab_id.value),
            )
            &&& session_answer(m, q, io).response.result->0.text_at("pane_id"@) == Some(
                uuid_text(io.pane_id.0.value),
            )
        }),
{
    if session_answer(m, q, io).response.error is None {
        let n = session_answer(m, q, io).session;
        let w = tab_goes_to(q);
        let pane = n.panes.last();
        lemma_asked(q, "rows"@, 24, pane.rows);
        lemma_asked(q, "cols"@, 80, pane.cols);
        assert(n.panes =~= m.panes.push(pane));
        assert(n.layout.workspaces[w].tabs.drop_last() =~= m.layout.workspaces[w].tabs);
        reveal_strlit("tab_id");
        reveal_strlit("pane_id");
        let r = session_answer(m, q, io).response.result->0;
        assert("tab_id"@.len() != "pane_id"@.len());
        law_first_field_is_read(r->Object_0, "tab_id"@, 0);
        law_first_field_is_read(r->Object_0, "pane_id"@, 1);
    }
}

/// Before a tab is opened, its process is to be started exactly where the
/// workspace exists: with the size and in the directory that its pane will have,
/// and with the words of the command that are texts, where there are any.
pub proof fn law_new_tab_needs_its_process(m: SessionModel, q: RequestModel, io: IoModel)
    requires
        session_ok(m),
        method_named(q.method) == Method::NewTab,
    ensures
        needed(m, q, io.cwd_is_dir) is Spawn <==> tab_goes_to(q) < m.layout.workspaces.len(),
        needed(m, q, io.cwd_is_dir) is Spawn || needed(m, q, io.cwd_is_dir) is Nothing,
        needed(m, q, io.cwd_is_dir) matches EffectModel::Spawn { size, cwd, command } ==> {
            &&& is_asked(q, "rows"@, 24, size.rows)
            &&& is_asked(q, "cols"@, 80, size.cols)
            &&& size.pixel_width == 0 && size.pixel_height == 0
            &&& cwd is Some ==> starts_where_asked(q, io, cwd->0, Seq::empty())
            &&& cwd is None ==> starts_where_asked(q, io, home_or_root(io), home_or_root(io))
            &&& cwd is Some ==> cwd->0.len() > 0 && io.cwd_is_dir
            &&& command is Some ==> command->0.len() > 0 && q.params.items_at("command"@) is Some
                && command->0 == texts(q.params.items_at("command"@)->0)
            &&& command is None && q.params.items_at("command"@) is Some ==> forall|i: int|
                0 <= i < q.params.items_at("command"@)->0.len()
                    ==> !(#[trigger] q.params.items_at("command"@)->0[i] is Text)
        },
{
    if let EffectModel::Spawn { size, cwd, command } = needed(m, q, io.cwd_is_dir) {
        lemma_asked(q, "rows"@, 24, size.rows);
        lemma_asked(q, "cols"@, 80, size.cols);
        if command is None && q.params.items_at("command"@) is Some {
            law_texts_are_the_strings(q.params.items_at("command"@)->0);
        }
    }
}

/// The words of a command are those of its items that are strings: of a list of
/// strings alone all, and none of a list without a string; and lists put together
/// have their words together.
pub proof fn law_texts_are_the_strings(items: Seq<JsonModel>)
    ensures
        (forall|i: int| 0 <= i < items.len() ==> #[trigger] items[i] is Text) ==> texts(items).len()
            == items.len() && forall|i: int|
            0 <= i < items.len() ==> JsonModel::Text(#[trigger] texts(items)[i]) == items[i],
        texts(items).len() == 0 <==> forall|i: int|
            0 <= i < items.len() ==> !(#[trigger] items[i] is Text),
    decreases items.len(),
{
    if items.len() > 0 {
        let rest = items.drop_last();
        law_texts_are_the_strings(rest);
        assert(items[items.len() - 1] == items.last());
        assert forall|i: int| 0 <= i < rest.len() implies rest[i] == #[trigger] items[i] by {}
        if forall|i: int| 0 <= i < items.len() ==> #[trigger] items[i] is Text {
            assert forall|i: int| 0 <= i < rest.len() implies #[trigger] rest[i] is Text by {
                assert(items[i] is Text);
            }
            assert forall|i: int| 0 <= i < items.len() implies JsonModel::Text(
                #[trigger] texts(items)[i],
            ) == items[i] by {
                if i < rest.len() {
                    assert(JsonModel::Text(texts(rest)[i]) == rest[i]);
                }
            }
        }
        if texts(items).len() == 0 {
            assert forall|i: int| 0 <= i < items.len() implies !(#[trigger] items[i] is Text) by {
                if i < rest.len() {
                    assert(!(rest[i] is Text));
                }
            }
        }
        if forall|i: int| 0 <= i < items.len() ==> !(#[trigger] items[i] is Text) {
            assert forall|i: int| 0 <= i < rest.len() implies !(#[trigger] rest[i] is Text) by {
                assert(!(items[i] is Text));
            }
        }
    }
}

/// The words of two lists put together are those of the first, then those of the
/// second.
pub proof fn law_texts_of_lists_together(a: Seq<JsonModel>, b: Seq<JsonModel>)
    ensures
        texts(a + b) == texts(a) + texts(b),
    decreases b.len(),
{
    if b.len() == 0 {
        assert(a + b =~= a);
    } else {
        assert((a + b).drop_last() =~= a + b.drop_last());
        law_texts_of_lists_together(a, b.drop_last());
    }
}

/// The request to split a live pane is met exactly where it names a direction that
/// is one and the process could be started. The new pane then stands right behind
/// the one that was split, as the second half of an even pair with it in that
/// direction; no other part of the tree has changed, and no other tab.
pub proof fn law_split_puts_the_new_pane_beside_the_named(
    m: SessionModel,
    q: RequestModel,
    io: IoModel,
    target: PaneId,
)
    requires
        session_ok(m),
        method_named(q.method) == Method::SplitPane,
        gives_id(q, "pane_id"@, target.0),
        registered(m.panes, target),
    ensures
        session_answer(m, q, io).response.error is None <==> (q.params.text_at("direction"@)
            == Some("horizontal"@) || q.params.text_at("direction"@) == Some("vertical"@))
            && io.spawned is Ok,
        session_answer(m, q, io).response.error is None ==> exists|w: int, t: int| #[trigger]
            has_place(m.layout, w, t) && tree_has(tab_at(m.layout, w, t).pane_tree, target) && ({
                let n = session_answer(m, q, io).session;
                let direction = q.params.text_at("direction"@)->0;
                let before = tab_at(m.layout, w, t);
                let after = tab_at(n.layout, w, t);
                let pane = n.panes.last();
                &&& n.panes == m.panes.push(pane)
                &&& pane.id == io.pane_id
                &&& pane.pid == io.spawned->Ok_0
                &&& pane.title.len() == 0
                &&& is_asked(q, "rows"@, 24, pane.rows)
                &&& is_asked(q, "cols"@, 80, pane.cols)
                &&& forall|i: int|
                    0 <= i < m.panes.len() && (#[trigger] m.panes[i]).id == target
                        ==> starts_where_asked(q, io, pane.cwd, m.panes[i].cwd)
                &&& leaves(after.pane_tree) == leaves(before.pane_tree).insert(
                    leaves(before.pane_tree).index_of_first(target)->0 + 1,
                    io.pane_id,
                )
                &&& is_part_of(
                    after.pane_tree,
                    PaneTree::Split {
                        direction,
                        ratio: Ratio { bits: HALF_BITS },
                        first: Box::new(PaneTree::Leaf { pane_id: target }),
                        second: Box::new(PaneTree::Leaf { pane_id: io.pane_id }),
                    },
                )
                &&& forall|part: PaneTree| #[trigger]
                    is_part_of(before.pane_tree, part) && !tree_has(part, target) ==> is_part_of(
                        after.pane_tree,
                        part,
                    )
                &&& after.id == before.id
                &&& after.title == before.title
                &&& n.layout.workspaces[w].tabs == m.layout.workspaces[w].tabs.update(t, after)
                &&& n.layout.workspaces[w].active_tab == m.layout.workspaces[w].active_tab
                &&& only_one_changed(m.layout, n.layout, w)
                &&& settings_kept(m, n)
                &&& n.logs == m.logs
                &&& n.events == m.events.push(EventModel::PaneCreated { pane_id: io.pane_id }).push(
                    EventModel::PaneSplit {
                        tab_id: before.id,
                        parent_pane_id: target,
                        new_pane_id: io.pane_id,
                        direction,
                    },
                )
                &&& session_answer(m, q, io).response.result is Some
                &&& session_answer(m, q, io).response.result->0.text_at("pane_id"@) == Some(
                    uuid_text(io.pane_id.0.value),
                )
            }),
{
    if session_answer(m, q, io).response.error is None {
        law_live_pane_has_one_place(m, target);
        let (w, t) = find_pane(m.layout, target)->0;
        assert(has_place(m.layout, w, t));
        let tree = tab_at(m.layout, w, t).pane_tree;
        let direction = q.params.text_at("direction"@)->0;
        let half = Ratio { bits: HALF_BITS };
        law_split_inserts_behind_target(tree, target, io.pane_id, direction, half);
        law_split_makes_a_pair(tree, target, io.pane_id, direction, half);
        let n = session_answer(m, q, io).session;
        let pane = n.panes.last();
        lemma_asked(q, "rows"@, 24, pane.rows);
        lemma_asked(q, "cols"@, 80, pane.cols);
        assert(n.panes =~= m.panes.push(pane));
        assert forall|i: int|
            0 <= i < m.panes.len() && (#[trigger] m.panes[i]).id
                == target implies starts_where_asked(q, io, pane.cwd, m.panes[i].cwd) by {
            lemma_record_of(m, i);
        }
        assert(n.layout.workspaces[w].tabs =~= m.layout.workspaces[w].tabs.update(
            t,
            tab_at(n.layout, w, t),
        ));
        let r = session_answer(m, q, io).response.result->0;
        law_first_field_is_read(r->Object_0, "pane_id"@, 0);
    }
}

proof fn lemma_record_of(m: SessionModel, i: int)
    requires
        session_ok(m),
        0 <= i < m.panes.len(),
    ensures
        pane_record(m.panes, m.panes[i].id) == Some(m.panes[i]),
{
    let ids = pane_ids(m.panes);
    lemma_first_is(ids, m.panes[i].id);
    assert(ids[i] == m.panes[i].id);
}

/// The request for a new workspace adds it behind the others under the name asked
/// for, and is met exactly where the process of its first tab could be started.
/// Where it was, that tab with its one pane is all that the workspace holds; the
/// active workspace stays active.
pub proof fn law_new_workspace_stands_behind_the_others(
    m: SessionModel,
    q: RequestModel,
    io: IoModel,
)
    requires
        session_ok(m),
        m.layout.workspaces.len() <= usize::MAX,
        method_named(q.method) == Method::CreateWorkspace,
    ensures
        session_answer(m, q, io).response.error is None <==> io.spawned is Ok,
        ({
            let n = session_answer(m, q, io).session;
            let k = m.layout.workspaces.len() as int;
            let added = n.layout.workspaces[k];
            &&& n.layout.workspaces.len() == k + 1
            &&& n.layout.workspaces.drop_last() == m.layout.workspaces
            &&& n.layout.active_workspace == m.layout.active_workspace
            &&& added.id == io.workspace_id
            &&& q.params.text_at("name"@) is Some ==> q.params.text_at("name"@) == Some(added.name)
            &&& q.params.text_at("name"@) is None ==> added.name == "Workspace"@
            &&& added.active_tab == 0
            &&& settings_kept(m, n)
            &&& n.logs == m.logs
            &&& n.events.len() > m.events.len()
            &&& n.events.take(m.events.len() as int) == m.events
            &&& n.events[m.events.len() as int] == (EventModel::WorkspaceCreated {
                workspace_idx: k as usize,
                workspace_id: io.workspace_id,
                name: added.name,
            })
        }),
        session_answer(m, q, io).response.error is Some ==> ({
            let n = session_answer(m, q, io).session;
            &&& n.layout.workspaces.last().tabs.len() == 0
            &&& n.panes == m.panes
            &&& n.events.len() == m.events.len() + 1
        }),
        session_answer(m, q, io).response.error is None ==> ({
            let n = session_answer(m, q, io).session;
            let k = m.layout.workspaces.len() as int;
            let added = n.layout.workspaces[k];
            let pane = n.panes.last();
            &&& added.tabs.len() == 1
            &&& added.tabs[0].id == io.tab_id
            &&& added.tabs[0].title.len() == 0
            &&& added.tabs[0].pane_tree == (PaneTree::Leaf { pane_id: io.pane_id })
            &&& n.panes == m.panes.push(pane)
            &&& pane.id == io.pane_id
            &&& pane.pid == io.spawned->Ok_0
            &&& pane.title.len() == 0
            &&& pane.rows == 24
            &&& pane.cols == 80
            &&& pane.cwd == home_or_root(io)
            &&& n.events.skip(m.events.len() as int + 1) == seq![
                EventModel::PaneCreated { pane_id: io.pane_id },
                EventModel::TabCreated {
                    workspace_idx: k as usize,
                    tab_id: io.tab_id,
                    pane_id: io.pane_id,
                },
            ]
            &&& session_answer(m, q, io).response.result is Some
            &&& session_answer(m, q, io).response.result->0.text_at("workspace_id"@) == Some(
                uuid_text(io.workspace_id.value),
            )
            &&& session_answer(m, q, io).response.result->0.unsigned_at("workspace_idx"@) == Some(
                k as usize as u64,
            )
            &&& session_answer(m, q, io).response.result->0.text_at("tab_id"@) == Some(
                uuid_text(io.tab_id.value),
            )
            &&& session_answer(m, q, io).response.result->0.text_at("pane_id"@) == Some(
                uuid_text(io.pane_id.0.value),
            )
        }),
{
    let n = session_answer(m, q, io).session;
    let k = m.layout.workspaces.len() as int;
    assert(n.layout.workspaces.drop_last() =~= m.layout.workspaces);
    assert(n.events.take(m.events.len() as int) =~= m.events);
    if session_answer(m, q, io).response.error is None {
        let pane = n.panes.last();
        assert(n.panes =~= m.panes.push(pane));
        reveal_strlit("workspace_id");
        reveal_strlit("workspace_idx");
        reveal_strlit("tab_id");
        reveal_strlit("pane_id");
        let r = session_answer(m, q, io).response.result->0;
        assert("workspace_id"@.len() == 12 && "workspace_idx"@.len() == 13 && "pane_id"@.len() == 7
            && "tab_id"@.len() == 6);
        law_first_field_is_read(r->Object_0, "workspace_id"@, 0);
        law_first_field_is_read(r->Object_0, "workspace_idx"@, 1);
        law_first_field_is_read(r->Object_0, "pane_id"@, 2);
        law_first_field_is_read(r->Object_0, "tab_id"@, 3);
    }
}

/// Before a live pane is split, the shell is to be started exactly where the direction is
/// one: with the size asked for, in the directory asked for or else in that of the pane.
/// The first tab of a new workspace always needs the shell, in the usual size.
pub proof fn law_split_needs_its_process(m: SessionModel, q: RequestModel, io: IoModel, i: int)
    requires
        session_ok(m),
        0 <= i < m.panes.len(),
        gives_id(q, "pane_id"@, m.panes[i].id.0),
    ensures
        method_named(q.method) == Method::SplitPane ==> ({
            let e = needed(m, q, io.cwd_is_dir);
            &&& e is Spawn <==> q.params.text_at("direction"@) == Some("horizontal"@)
                || q.params.text_at("direction"@) == Some("vertical"@)
            &&& e is Spawn || e is Nothing
            &&& e matches EffectModel::Spawn { size, cwd, command } ==> {
                &&& is_asked(q, "rows"@, 24, size.rows)
                &&& is_asked(q, "cols"@, 80, size.cols)
                &&& cwd is Some && starts_where_asked(q, io, cwd->0, m.panes[i].cwd)
                &&& command is None
            }
        }),
        method_named(q.method) == Method::CreateWorkspace ==> (needed(m, q, io.cwd_is_dir) matches
            EffectModel::Spawn { size, cwd, command } && size.rows == 24 && size.cols == 80
            && cwd is None && command is None),
{
    lemma_record_of(m, i);
    let ids = pane_ids(m.panes);
    assert(ids[i] == m.panes[i].id);
    assert(registered(m.panes, m.panes[i].id));
    if method_named(q.method) == Method::SplitPane {
        if let EffectModel::Spawn { size, cwd, command } = needed(m, q, io.cwd_is_dir) {
            lemma_asked(q, "rows"@, 24, size.rows);
            lemma_asked(q, "cols"@, 80, size.cols);
        }
    }
}

} // verus!

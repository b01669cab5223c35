//! The handlers of requests.
//!
//! A request goes through two steps. `effect_of` says what the caller has to do
//! for it first: start a process, write to a terminal, resize one. `dispatch`
//! then takes in how that went, changes the session and gives the response.

use vstd::prelude::*;

use crate::ids::{PaneId, Uuid};
use crate::pty::size::PtySize;
use crate::ratio::Ratio;
use crate::seqs::lemma_first_at;
use crate::session::layout::{
    collect_pane_ids, find_tab_for_pane, leaves, lemma_find_pane_valid, lemma_find_tab_valid,
    PaneTreeLayout, SessionLayout, SessionWorkspace, WorkspaceModel,
};
use crate::session::manager::{optional_text, SessionManager};
use crate::session::model::{
    is_fresh, is_fresh_tab, lemma_panes_without, pane_ids, registered, SessionModel,
};
use crate::session::model_laws::lemma_fresh_after_new_workspace;
use crate::session::pane::PaneInfo;
use crate::socket::answers::{
    asked_command, asked_cwd, asked_input, asked_resize, asked_size, asked_split,
    close_pane_answer, close_tab_answer, create_workspace_answer, delete_workspace_answer, done,
    focus_tab_answer, get_layout_answer, get_pane_info_answer, get_pinned_answer, id_json,
    is_sync_method, layout_json, list_tabs_answer, low_bits, move_tab_answer, named_pane,
    named_tab, needed, new_tab_answer, notify_answer, ok_json, pane_json, ratio_update,
    ratio_updates, rename_workspace_answer, resize_pane_answer, send_input_answer,
    send_sigint_answer, session_answer, set_active_workspace_answer, set_pinned_answer, split_cwd,
    split_pane_answer, tab_closed_answer, tab_json, texts, tree_json, update_split_ratios_answer,
    workspace_json, Answer, EffectModel, Io, IoModel,
};
use crate::socket::codec::base64_decode;
use crate::socket::devices::{
    devices_answered, devices_needed, dispatch_devices, dispatch_unavailable, remaining_devices,
    unavailable,
};
use crate::socket::json::{
    array, copy_optional, fields_model, items_model, object, object1, object2, object3, object4,
    text, Json, JsonModel,
};
use crate::socket::methods::{method_named, method_of, Method};
use crate::socket::protocol::{
    error_model, success_model, Request, Response, INTERNAL_ERROR, INVALID_PARAMS, METHOD_NOT_FOUND,
};
use crate::sync::endpoint::{SyncModel, SyncState};
use crate::sync::registry::{entries_model, DeviceEntry};
use crate::text::{join2, same_text};

verus! {

/// Rows of a terminal nobody asked a size for.
pub const DEFAULT_ROWS: u16 = 24;

/// Columns of a terminal nobody asked a size for.
pub const DEFAULT_COLS: u16 = 80;

// ---------------------------------------------------------------------------
// Replies
// ---------------------------------------------------------------------------
fn ok_reply(request: &Request) -> (r: Response)
    ensures
        r@ == success_model(request@.id, ok_json()),
{
    Response::success(copy_optional(&request.id), object1("ok", Json::Bool(true)))
}

fn refuse(request: &Request, code: i32, words: &str) -> (r: Response)
    ensures
        r@ == error_model(request@.id, code, words@),
{
    Response::error(copy_optional(&request.id), code, words.to_owned())
}

fn refuse_with(request: &Request, code: i32, prefix: &str, words: &str) -> (r: Response)
    ensures
        r@ == error_model(request@.id, code, prefix@ + words@),
{
    Response::error(copy_optional(&request.id), code, join2(prefix, words))
}

// ---------------------------------------------------------------------------
// Parameters
// ---------------------------------------------------------------------------
/// The live pane that a request names.
pub(crate) fn require_pane_id(request: &Request, sm: &SessionManager) -> (r: Result<PaneId, Response>)
    ensures
        match named_pane(sm@, request@.params) {
            Ok(pane) => r == Ok::<PaneId, Response>(pane),
            Err(words) => r matches Err(e) && e@ == error_model(
                request@.id,
                INVALID_PARAMS,
                words,
            ),
        },
{
    match request.params.text_at("pane_id") {
        None => Err(refuse(request, INVALID_PARAMS, "missing param: pane_id")),
        Some(raw) => match Uuid::parse_str(raw) {
            None => Err(refuse_with(request, INVALID_PARAMS, "invalid UUID: ", raw)),
            Some(id) => {
                if sm.has_pane(PaneId(id)) {
                    Ok(PaneId(id))
                } else {
                    Err(refuse_with(request, INVALID_PARAMS, "pane not found: ", raw))
                }
            },
        },
    }
}

/// The tab id that a request names.
fn require_tab_id(request: &Request) -> (r: Result<Uuid, Response>)
    ensures
        match named_tab(request@.params) {
            Ok(tab) => r == Ok::<Uuid, Response>(tab),
            Err(words) => r matches Err(e) && e@ == error_model(
                request@.id,
                INVALID_PARAMS,
                words,
            ),
        },
{
    match request.params.text_at("tab_id") {
        None => Err(refuse(request, INVALID_PARAMS, "missing param: tab_id")),
        Some(raw) => match Uuid::parse_str(raw) {
            None => Err(refuse_with(request, INVALID_PARAMS, "invalid UUID: ", raw)),
            Some(id) => Ok(id),
        },
    }
}

fn low_bits_of(n: u64) -> (v: u16)
    ensures
        v == low_bits(n),
{
    (n % 65536) as u16
}

fn size_param(params: &Json) -> (size: PtySize)
    ensures
        size == asked_size(params@),
{
    let rows: u16 = match params.unsigned_at("rows") {
        Some(n) => low_bits_of(n),
        None => DEFAULT_ROWS,
    };
    let cols: u16 = match params.unsigned_at("cols") {
        Some(n) => low_bits_of(n),
        None => DEFAULT_COLS,
    };
    PtySize { rows, cols, pixel_width: 0, pixel_height: 0 }
}

fn cwd_param(params: &Json, is_dir: bool) -> (cwd: Option<String>)
    ensures
        optional_text(cwd) == asked_cwd(params@, is_dir),
{
    match params.text_at("cwd") {
        Some(d) => {
            if !d.is_empty() && is_dir {
                Some(d.to_owned())
            } else {
                None
            }
        },
        None => None,
    }
}

/// The directory that a request names, for the caller to look at before
/// `effect_of`.
pub fn requested_cwd(request: &Request) -> (cwd: Option<String>)
    ensures
        optional_text(cwd) == asked_cwd(request@.params, true),
{
    cwd_param(&request.params, true)
}

/// What a list of strings holds.
pub open spec fn texts_model(v: Seq<String>) -> Seq<Seq<char>> {
    Seq::new(v.len(), |i: int| v[i]@)
}

/// What an optional command holds.
pub open spec fn command_model(c: Option<Vec<String>>) -> Option<Seq<Seq<char>>> {
    match c {
        Some(v) => Some(texts_model(v@)),
        None => None,
    }
}

fn command_param(params: &Json) -> (command: Option<Vec<String>>)
    ensures
        command_model(command) == asked_command(params@),
{
    match params.items_at("command") {
        None => None,
        Some(items) => {
            let ghost all = items_model(items@);
            let mut out: Vec<String> = Vec::new();
            let mut i: usize = 0;
            while i < items.len()
                invariant
                    i <= items@.len(),
                    all == items_model(items@),
                    texts_model(out@) == texts(all.take(i as int)),
                decreases items@.len() - i,
            {
                assert(all[i as int] == items@[i as int]@);
                assert(all.take(i as int + 1).drop_last() =~= all.take(i as int));
                let ghost so_far = texts_model(out@);
                match &items[i] {
                    Json::Text(s) => {
                        out.push(s.clone());
                        assert(texts_model(out@) =~= so_far.push(s@));
                    },
                    _ => {},
                }
                i = i + 1;
            }
            assert(all.take(all.len() as int) =~= all);
            if out.len() > 0 {
                Some(out)
            } else {
                None
            }
        },
    }
}

// ---------------------------------------------------------------------------
// JSON
// ---------------------------------------------------------------------------
fn id_value(id: Uuid) -> (j: Json)
    ensures
        j@ == id_json(id),
{
    Json::Text(id.to_text())
}

fn pane_value(info: &PaneInfo) -> (j: Json)
    ensures
        j@ == pane_json(info@),
{
    let pid = match info.pid {
        Some(n) => Json::Unsigned(n as u64),
        None => Json::Null,
    };
    let id = id_value(info.id.0);
    let cwd = text(info.cwd.as_str());
    let title = text(info.title.as_str());
    let mut fields: Vec<(String, Json)> = Vec::new();
    let ghost goal = seq![
        ("pane_id"@, id@),
        ("pid"@, pid@),
        ("rows"@, JsonModel::Unsigned(info.rows as u64)),
        ("cols"@, JsonModel::Unsigned(info.cols as u64)),
        ("cwd"@, cwd@),
        ("title"@, title@),
    ];
    fields.push(("pane_id".to_owned(), id));
    fields.push(("pid".to_owned(), pid));
    fields.push(("rows".to_owned(), Json::Unsigned(info.rows as u64)));
    fields.push(("cols".to_owned(), Json::Unsigned(info.cols as u64)));
    fields.push(("cwd".to_owned(), cwd));
    fields.push(("title".to_owned(), title));
    assert(fields_model(fields@) =~= goal);
    object(fields)
}

fn tree_value(tree: &PaneTreeLayout) -> (j: Json)
    ensures
        j@ == tree_json(tree@),
    decreases tree,
{
    match tree {
        PaneTreeLayout::Leaf { pane_id } => object1(
            "Leaf",
            object1("pane_id", id_value(pane_id.0)),
        ),
        PaneTreeLayout::Split { direction, ratio, first, second } => object1(
            "Split",
            object4(
                "direction",
                text(direction.as_str()),
                "ratio",
                Json::Single(*ratio),
                "first",
                tree_value(first),
                "second",
                tree_value(second),
            ),
        ),
    }
}

fn workspace_value(ws: &SessionWorkspace) -> (j: Json)
    ensures
        j@ == workspace_json(ws@),
{
    let mut tabs: Vec<Json> = Vec::new();
    let mut i: usize = 0;
    while i < ws.tabs.len()
        invariant
            i <= ws.tabs@.len(),
            tabs@.len() == i,
            forall|k: int| 0 <= k < i ==> (#[trigger] tabs@[k])@ == tab_json(ws@.tabs[k]),
        decreases ws.tabs@.len() - i,
    {
        assert(ws@.tabs[i as int] == ws.tabs@[i as int]@);
        let tab = &ws.tabs[i];
        tabs.push(
            object3(
                "id",
                id_value(tab.id),
                "title",
                text(tab.title.as_str()),
                "pane_tree",
                tree_value(&tab.pane_tree),
            ),
        );
        i = i + 1;
    }
    assert(items_model(tabs@) =~= Seq::new(ws@.tabs.len(), |k: int| tab_json(ws@.tabs[k])));
    object4(
        "id",
        id_value(ws.id),
        "name",
        text(ws.name.as_str()),
        "tabs",
        array(tabs),
        "active_tab",
        Json::Unsigned(ws.active_tab as u64),
    )
}

fn layout_value(layout: &SessionLayout) -> (j: Json)
    ensures
        j@ == layout_json(layout@),
{
    let mut workspaces: Vec<Json> = Vec::new();
    let mut i: usize = 0;
    while i < layout.workspaces.len()
        invariant
            i <= layout.workspaces@.len(),
            workspaces@.len() == i,
            forall|k: int|
                0 <= k < i ==> (#[trigger] workspaces@[k])@ == workspace_json(
                    layout@.workspaces[k],
                ),
        decreases layout.workspaces@.len() - i,
    {
        assert(layout@.workspaces[i as int] == layout.workspaces@[i as int]@);
        workspaces.push(workspace_value(&layout.workspaces[i]));
        i = i + 1;
    }
    assert(items_model(workspaces@) =~= Seq::new(
        layout@.workspaces.len(),
        |k: int| workspace_json(layout@.workspaces[k]),
    ));
    object2(
        "workspaces",
        array(workspaces),
        "active_workspace",
        Json::Unsigned(layout.active_workspace as u64),
    )
}

// ---------------------------------------------------------------------------
// Handlers
// ---------------------------------------------------------------------------
fn handle_list_tabs(request: &Request, sm: &SessionManager) -> (r: Response)
    requires
        sm.wf(),
    ensures
        r@ == list_tabs_answer(sm@, request@).response,
{
    let ids = sm.list_panes();
    let ghost panes = sm@.panes;
    let mut tabs: Vec<Json> = Vec::new();
    let mut i: usize = 0;
    while i < ids.len()
        invariant
            i <= ids@.len(),
            sm.wf(),
            panes == sm@.panes,
            ids@ == pane_ids(panes),
            tabs@.len() == i,
            forall|k: int| 0 <= k < i ==> (#[trigger] tabs@[k])@ == pane_json(panes[k]),
        decreases ids@.len() - i,
    {
        proof {
            lemma_first_at(pane_ids(panes), ids@[i as int], i as int);
        }
        match sm.pane_info(ids[i]) {
            Some(info) => {
                tabs.push(pane_value(&info));
            },
            None => {
                assert(false);
            },
        }
        i = i + 1;
    }
    assert(items_model(tabs@) =~= Seq::new(panes.len(), |k: int| pane_json(panes[k])));
    Response::success(copy_optional(&request.id), object1("tabs", array(tabs)))
}

fn handle_get_layout(request: &Request, sm: &SessionManager) -> (r: Response)
    ensures
        r@ == get_layout_answer(sm@, request@).response,
{
    Response::success(copy_optional(&request.id), layout_value(&sm.layout()))
}

fn handle_new_tab(request: &Request, sm: &mut SessionManager, io: Io) -> (r: Response)
    requires
        old(sm).wf(),
        is_fresh(old(sm)@, io.pane_id),
        is_fresh_tab(old(sm)@, io.tab_id),
    ensures
        final(sm).wf(),
        new_tab_answer(old(sm)@, request@, io@) == (Answer {
            response: r@,
            session: final(sm)@,
        }),
{
    let ghost iom = io@;
    let workspace_idx: usize = match request.params.unsigned_at("workspace_idx") {
        Some(n) => n as usize,
        None => 0,
    };
    let size = size_param(&request.params);
    let cwd = cwd_param(&request.params, io.cwd_is_dir);
    match sm.create_tab(workspace_idx, io.pane_id, io.tab_id, io.spawned, size, cwd, io.home) {
        Ok((pane_id, tab_id)) => Response::success(
            copy_optional(&request.id),
            object2("tab_id", id_value(tab_id), "pane_id", id_value(pane_id.0)),
        ),
        Err(e) => refuse_with(request, INTERNAL_ERROR, "failed to create tab: ", e.message()),
    }
}

fn close_tab_by_id(request: &Request, sm: &mut SessionManager, tab: Uuid, what: &str) -> (r: Response)
    requires
        old(sm).wf(),
    ensures
        final(sm).wf(),
        tab_closed_answer(old(sm)@, request@, tab, what@) == (Answer {
            response: r@,
            session: final(sm)@,
        }),
{
    match sm.close_tab(tab) {
        Ok(()) => ok_reply(request),
        Err(e) => refuse_with(request, INTERNAL_ERROR, what, e.message()),
    }
}

fn handle_close_tab(request: &Request, sm: &mut SessionManager) -> (r: Response)
    requires
        old(sm).wf(),
    ensures
        final(sm).wf(),
        close_tab_answer(old(sm)@, request@) == (Answer { response: r@, session: final(sm)@ }),
{
    match request.params.text_at("tab_id") {
        Some(raw) => match Uuid::parse_str(raw) {
            None => refuse_with(request, INVALID_PARAMS, "invalid UUID: ", raw),
            Some(tab) => close_tab_by_id(request, sm, tab, "failed to close tab: "),
        },
        None => match request.params.text_at("pane_id") {
            None => refuse(request, INVALID_PARAMS, "missing param: tab_id or pane_id"),
            Some(_) => match require_pane_id(request, sm) {
                Err(e) => e,
                Ok(pane) => {
                    let layout = sm.layout();
                    match find_tab_for_pane(&layout, pane) {
                        Some(tab) => close_tab_by_id(request, sm, tab, "failed to close tab: "),
                        None => {
                            let _ = sm.close_pane(pane);
                            ok_reply(request)
                        },
                    }
                },
            },
        },
    }
}

fn handle_focus_tab(request: &Request, sm: &mut SessionManager) -> (r: Response)
    requires
        old(sm).wf(),
    ensures
        final(sm).wf(),
        focus_tab_answer(old(sm)@, request@) == (Answer { response: r@, session: final(sm)@ }),
{
    let tab = match require_tab_id(request) {
        Err(e) => {
            return e;
        },
        Ok(tab) => tab,
    };
    let layout = sm.layout();
    proof {
        lemma_find_tab_valid(layout@.workspaces, tab, 0);
    }
    match layout.tab_location(tab) {
        None => {
            let raw = match request.params.text_at("tab_id") {
                Some(raw) => raw,
                None => "",
            };
            refuse_with(request, INVALID_PARAMS, "tab not found: ", raw)
        },
        Some((w, t)) => match sm.set_active_tab(w, t) {
            Ok(()) => ok_reply(request),
            Err(e) => refuse_with(request, INTERNAL_ERROR, "set_active_tab failed: ", e.message()),
        },
    }
}

fn handle_set_active_workspace(request: &Request, sm: &mut SessionManager) -> (r: Response)
    requires
        old(sm).wf(),
    ensures
        final(sm).wf(),
        set_active_workspace_answer(old(sm)@, request@) == (Answer {
            response: r@,
            session: final(sm)@,
        }),
{
    match request.params.unsigned_at("workspace_idx") {
        None => refuse(request, INVALID_PARAMS, "missing param: workspace_idx"),
        Some(n) => match sm.set_active_workspace(n as usize) {
            Ok(()) => ok_reply(request),
            Err(e) => refuse_with(
                request,
                INVALID_PARAMS,
                "set_active_workspace failed: ",
                e.message(),
            ),
        },
    }
}

fn handle_close_pane(request: &Request, sm: &mut SessionManager) -> (r: Response)
    requires
        old(sm).wf(),
    ensures
        final(sm).wf(),
        close_pane_answer(old(sm)@, request@) == (Answer { response: r@, session: final(sm)@ }),
{
    let pane = match require_pane_id(request, sm) {
        Err(e) => {
            return e;
        },
        Ok(pane) => pane,
    };
    let layout = sm.layout();
    proof {
        lemma_find_pane_valid(layout@.workspaces, pane, 0);
    }
    match layout.pane_location(pane) {
        None => {
            let _ = sm.close_pane(pane);
            ok_reply(request)
        },
        Some((w, t)) => {
            assert(layout@.workspaces[w as int] == layout.workspaces@[w as int]@);
            assert(layout@.workspaces[w as int].tabs[t as int]
                == layout.workspaces@[w as int].tabs@[t as int]@);
            let tab = &layout.workspaces[w].tabs[t];
            let mut ids: Vec<PaneId> = Vec::new();
            collect_pane_ids(&tab.pane_tree, &mut ids);
            assert(ids@ =~= leaves(tab@.pane_tree));
            if ids.len() <= 1 {
                close_tab_by_id(request, sm, tab.id, "close_pane (via close_tab) failed: ")
            } else {
                let _ = sm.close_pane(pane);
                proof {
                    lemma_panes_without(old(sm)@.panes, pane);
                }
                sm.promote_sibling(pane);
                ok_reply(request)
            }
        },
    }
}

fn handle_create_workspace(request: &Request, sm: &mut SessionManager, io: Io) -> (r: Response)
    requires
        old(sm).wf(),
        is_fresh(old(sm)@, io.pane_id),
        is_fresh_tab(old(sm)@, io.tab_id),
    ensures
        final(sm).wf(),
        create_workspace_answer(old(sm)@, request@, io@) == (Answer {
            response: r@,
            session: final(sm)@,
        }),
{
    let ghost before = sm@;
    let name = match request.params.text_at("name") {
        Some(s) => s,
        None => "Workspace",
    };
    let workspace_id = io.workspace_id;
    let idx: usize = sm.create_workspace_as(workspace_id, name);
    proof {
        lemma_fresh_after_new_workspace(
            before,
            WorkspaceModel {
                id: workspace_id,
                name: name@,
                tabs: Seq::empty(),
                active_tab: 0,
            },
            io.pane_id,
            io.tab_id,
        );
    }
    let size = PtySize {
        rows: DEFAULT_ROWS,
        cols: DEFAULT_COLS,
        pixel_width: 0,
        pixel_height: 0,
    };
    match sm.create_tab(idx, io.pane_id, io.tab_id, io.spawned, size, None, io.home) {
        Ok((pane_id, tab_id)) => Response::success(
            copy_optional(&request.id),
            object4(
                "workspace_id",
                id_value(workspace_id),
                "workspace_idx",
                Json::Unsigned(idx as u64),
                "pane_id",
                id_value(pane_id.0),
                "tab_id",
                id_value(tab_id),
            ),
        ),
        Err(e) => refuse_with(
            request,
            INTERNAL_ERROR,
            "create_workspace: create_tab failed: ",
            e.message(),
        ),
    }
}

fn handle_rename_workspace(request: &Request, sm: &mut SessionManager) -> (r: Response)
    requires
        old(sm).wf(),
    ensures
        final(sm).wf(),
        rename_workspace_answer(old(sm)@, request@) == (Answer {
            response: r@,
            session: final(sm)@,
        }),
{
    let n: u64 = match request.params.unsigned_at("workspace_idx") {
        None => {
            return refuse(request, INVALID_PARAMS, "missing param: workspace_idx (u64)");
        },
        Some(n) => n,
    };
    let name = match request.params.text_at("name") {
        None => {
            return refuse(request, INVALID_PARAMS, "missing param: name");
        },
        Some(name) => name,
    };
    match sm.rename_workspace(n as usize, name) {
        Ok(()) => ok_reply(request),
        Err(e) => refuse_with(request, INTERNAL_ERROR, "rename_workspace failed: ", e.message()),
    }
}

fn handle_delete_workspace(request: &Request, sm: &mut SessionManager) -> (r: Response)
    requires
        old(sm).wf(),
    ensures
        final(sm).wf(),
        delete_workspace_answer(old(sm)@, request@) == (Answer {
            response: r@,
            session: final(sm)@,
        }),
{
    match request.params.unsigned_at("workspace_idx") {
        None => refuse(request, INVALID_PARAMS, "missing param: workspace_idx (u64)"),
        Some(n) => match sm.delete_workspace(n as usize) {
            Ok(()) => ok_reply(request),
            Err(e) => refuse_with(
                request,
                INTERNAL_ERROR,
                "delete_workspace failed: ",
                e.message(),
            ),
        },
    }
}

fn read_ratio_update(item: &Json) -> (u: Option<(PaneId, Ratio)>)
    ensures
        u == ratio_update(item@),
{
    match item.text_at("pane_id") {
        Some(raw) => match Uuid::parse_str(raw) {
            Some(id) => match item.ratio_at("ratio") {
                Some(r) => Some((PaneId(id), r)),
                None => None,
            },
            None => None,
        },
        None => None,
    }
}

fn handle_update_split_ratios(request: &Request, sm: &mut SessionManager) -> (r: Response)
    requires
        old(sm).wf(),
    ensures
        final(sm).wf(),
        update_split_ratios_answer(old(sm)@, request@) == (Answer {
            response: r@,
            session: final(sm)@,
        }),
{
    let items = match request.params.items_at("ratios") {
        None => {
            return refuse(
                request,
                INVALID_PARAMS,
                "missing param: ratios (array of {pane_id, ratio})",
            );
        },
        Some(items) => items,
    };
    let ghost all = items_model(items@);
    let mut updates: Vec<(PaneId, Ratio)> = Vec::new();
    let mut i: usize = 0;
    while i < items.len()
        invariant
            i <= items@.len(),
            all == items_model(items@),
            updates@ == ratio_updates(all.take(i as int)),
        decreases items@.len() - i,
    {
        assert(all[i as int] == items@[i as int]@);
        assert(all.take(i as int + 1).drop_last() =~= all.take(i as int));
        if let Some(u) = read_ratio_update(&items[i]) {
            updates.push(u);
        }
        i = i + 1;
    }
    assert(all.take(all.len() as int) =~= all);
    sm.update_split_ratios(updates.as_slice());
    ok_reply(request)
}

fn handle_set_pinned(request: &Request, sm: &mut SessionManager) -> (r: Response)
    requires
        old(sm).wf(),
    ensures
        final(sm).wf(),
        set_pinned_answer(old(sm)@, request@) == (Answer { response: r@, session: final(sm)@ }),
{
    match request.params.bool_at("pinned") {
        None => refuse(request, INVALID_PARAMS, "missing param: pinned (bool)"),
        Some(pinned) => {
            sm.set_pinned(pinned);
            ok_reply(request)
        },
    }
}

fn handle_get_pinned(request: &Request, sm: &SessionManager) -> (r: Response)
    ensures
        r@ == get_pinned_answer(sm@, request@).response,
{
    Response::success(
        copy_optional(&request.id),
        object1("pinned", Json::Bool(sm.is_pinned())),
    )
}

/// The pane to split and the direction that a request names.
fn split_params(request: &Request, sm: &SessionManager) -> (r: Result<(PaneId, String), Response>)
    ensures
        match asked_split(sm@, request@.params) {
            Ok((pane, d)) => r matches Ok((p, s)) && p == pane && s@ == d,
            Err(words) => r matches Err(e) && e@ == error_model(
                request@.id,
                INVALID_PARAMS,
                words,
            ),
        },
{
    let pane = match require_pane_id(request, sm) {
        Err(e) => {
            return Err(e);
        },
        Ok(pane) => pane,
    };
    match request.params.text_at("direction") {
        None => Err(refuse(request, INVALID_PARAMS, "missing param: direction")),
        Some(d) => {
            if same_text(d, "horizontal") || same_text(d, "vertical") {
                Ok((pane, d.to_owned()))
            } else {
                Err(
                    refuse(
                        request,
                        INVALID_PARAMS,
                        "direction must be 'horizontal' or 'vertical'",
                    ),
                )
            }
        },
    }
}

fn split_cwd_param(request: &Request, sm: &SessionManager, pane: PaneId, is_dir: bool) -> (cwd:
    Option<String>)
    ensures
        optional_text(cwd) == split_cwd(sm@, request@, pane, is_dir),
{
    match cwd_param(&request.params, is_dir) {
        Some(d) => Some(d),
        None => match sm.pane_info(pane) {
            Some(info) => Some(info.cwd),
            None => None,
        },
    }
}

fn handle_split_pane(request: &Request, sm: &mut SessionManager, io: Io) -> (r: Response)
    requires
        old(sm).wf(),
        is_fresh(old(sm)@, io.pane_id),
    ensures
        final(sm).wf(),
        split_pane_answer(old(sm)@, request@, io@) == (Answer {
            response: r@,
            session: final(sm)@,
        }),
{
    let (pane, direction) = match split_params(request, sm) {
        Err(e) => {
            return e;
        },
        Ok(asked) => asked,
    };
    proof {
        lemma_named_pane_registered(sm@, request@.params);
    }
    let size = size_param(&request.params);
    let cwd = split_cwd_param(request, sm, pane, io.cwd_is_dir);
    match sm.split_pane(pane, direction.as_str(), io.pane_id, io.spawned, size, cwd, io.home) {
        Ok(new_pane_id) => Response::success(
            copy_optional(&request.id),
            object1("pane_id", id_value(new_pane_id.0)),
        ),
        Err(e) => refuse_with(request, INTERNAL_ERROR, "split_pane failed: ", e.message()),
    }
}

/// A pane that a request names is alive.
pub proof fn lemma_named_pane_registered(m: SessionModel, params: JsonModel)
    ensures
        named_pane(m, params) matches Ok(pane) ==> registered(m.panes, pane),
{
}

fn handle_move_tab(request: &Request, sm: &mut SessionManager) -> (r: Response)
    requires
        old(sm).wf(),
    ensures
        final(sm).wf(),
        move_tab_answer(old(sm)@, request@) == (Answer { response: r@, session: final(sm)@ }),
{
    let tab = match require_tab_id(request) {
        Err(e) => {
            return e;
        },
        Ok(tab) => tab,
    };
    match request.params.unsigned_at("new_index") {
        None => refuse(request, INVALID_PARAMS, "missing param: new_index"),
        Some(n) => match sm.move_tab(tab, n as usize) {
            Ok(()) => ok_reply(request),
            Err(e) => refuse_with(request, INTERNAL_ERROR, "move_tab failed: ", e.message()),
        },
    }
}

/// The pane and the bytes that a request sends to it.
fn input_params(request: &Request, sm: &SessionManager) -> (r: Result<(PaneId, Vec<u8>), Response>)
    ensures
        match asked_input(sm@, request@.params) {
            Ok((pane, bytes)) => r matches Ok((p, b)) && p == pane && b@ == bytes,
            Err(words) => r matches Err(e) && e@ == error_model(
                request@.id,
                INVALID_PARAMS,
                words,
            ),
        },
{
    let pane = match require_pane_id(request, sm) {
        Err(e) => {
            return Err(e);
        },
        Ok(pane) => pane,
    };
    match request.params.text_at("data") {
        None => Err(refuse(request, INVALID_PARAMS, "missing param: data")),
        Some(data) => match base64_decode(data) {
            None => Err(refuse(request, INVALID_PARAMS, "invalid base64 in data field")),
            Some(bytes) => Ok((pane, bytes)),
        },
    }
}

fn handle_send_input(request: &Request, sm: &SessionManager, written: Result<(), String>) -> (r:
    Response)
    ensures
        forall|io: IoModel|
            io.done == done_model(written) ==> r@ == #[trigger] send_input_answer(
                sm@,
                request@,
                io,
            ).response,
{
    let pane = match input_params(request, sm) {
        Err(e) => {
            return e;
        },
        Ok((pane, _)) => pane,
    };
    proof {
        lemma_named_pane_registered(sm@, request@.params);
    }
    match sm.write_pty(pane, written) {
        Ok(()) => ok_reply(request),
        Err(e) => refuse_with(request, INTERNAL_ERROR, "failed to write PTY: ", e.message()),
    }
}

/// How something went, in words where it failed.
pub open spec fn done_model(r: Result<(), String>) -> Result<(), Seq<char>> {
    match r {
        Ok(()) => Ok(()),
        Err(words) => Err(words@),
    }
}

fn handle_get_pane_info(request: &Request, sm: &SessionManager) -> (r: Response)
    ensures
        r@ == get_pane_info_answer(sm@, request@).response,
{
    let pane = match require_pane_id(request, sm) {
        Err(e) => {
            return e;
        },
        Ok(pane) => pane,
    };
    proof {
        lemma_named_pane_registered(sm@, request@.params);
    }
    match sm.pane_info(pane) {
        Some(info) => Response::success(copy_optional(&request.id), pane_value(&info)),
        None => {
            assert(false);
            ok_reply(request)
        },
    }
}

/// The pane and the size that a request resizes it to.
fn resize_params(request: &Request, sm: &SessionManager) -> (r: Result<(PaneId, PtySize), Response>)
    ensures
        match asked_resize(sm@, request@.params) {
            Ok(asked) => r == Ok::<(PaneId, PtySize), Response>(asked),
            Err(words) => r matches Err(e) && e@ == error_model(
                request@.id,
                INVALID_PARAMS,
                words,
            ),
        },
{
    let pane = match require_pane_id(request, sm) {
        Err(e) => {
            return Err(e);
        },
        Ok(pane) => pane,
    };
    match request.params.unsigned_at("rows") {
        None => Err(refuse(request, INVALID_PARAMS, "missing param: rows")),
        Some(rows) => match request.params.unsigned_at("cols") {
            None => Err(refuse(request, INVALID_PARAMS, "missing param: cols")),
            Some(cols) => Ok(
                (
                    pane,
                    PtySize {
                        rows: low_bits_of(rows),
                        cols: low_bits_of(cols),
                        pixel_width: 0,
                        pixel_height: 0,
                    },
                ),
            ),
        },
    }
}

fn handle_resize_pane(request: &Request, sm: &mut SessionManager, io: Io) -> (r: Response)
    requires
        old(sm).wf(),
    ensures
        final(sm).wf(),
        resize_pane_answer(old(sm)@, request@, io@) == (Answer {
            response: r@,
            session: final(sm)@,
        }),
{
    let (pane, size) = match resize_params(request, sm) {
        Err(e) => {
            return e;
        },
        Ok(asked) => asked,
    };
    proof {
        lemma_named_pane_registered(sm@, request@.params);
    }
    match sm.resize_pane(pane, size, io.done) {
        Ok(()) => ok_reply(request),
        Err(e) => refuse_with(request, INTERNAL_ERROR, "failed to resize pane: ", e.message()),
    }
}

fn handle_send_sigint(request: &Request, sm: &SessionManager, written: Result<(), String>) -> (r:
    Response)
    ensures
        forall|io: IoModel|
            io.done == done_model(written) ==> r@ == #[trigger] send_sigint_answer(
                sm@,
                request@,
                io,
            ).response,
{
    let pane = match require_pane_id(request, sm) {
        Err(e) => {
            return e;
        },
        Ok(pane) => pane,
    };
    proof {
        lemma_named_pane_registered(sm@, request@.params);
    }
    match sm.write_pty(pane, written) {
        Ok(()) => ok_reply(request),
        Err(e) => refuse_with(request, INTERNAL_ERROR, "failed to send SIGINT: ", e.message()),
    }
}

fn handle_notify(request: &Request, sm: &SessionManager) -> (r: Response)
    ensures
        r@ == notify_answer(sm@, request@).response,
{
    match require_pane_id(request, sm) {
        Err(e) => e,
        Ok(_) => ok_reply(request),
    }
}

// ---------------------------------------------------------------------------
// Dispatch
// ---------------------------------------------------------------------------
/// What the caller has to do before a request can be answered.
#[derive(Debug, PartialEq, Eq)]
pub enum Effect {
    Nothing,
    /// Start a process: a command, or the shell.
    Spawn { size: PtySize, cwd: Option<String>, command: Option<Vec<String>> },
    /// Write bytes to the terminal of a pane.
    Write { pane_id: PaneId, data: Vec<u8> },
    /// Resize the terminal of a pane.
    Resize { pane_id: PaneId, size: PtySize },
    /// Write an interrupt character to the terminal of a pane, and if that
    /// went well signal its foreground process group.
    Interrupt { pane_id: PaneId },
    /// Store a list of devices.
    StoreDevices { devices: Vec<DeviceEntry> },
}

impl View for Effect {
    type V = EffectModel;

    open spec fn view(&self) -> EffectModel {
        match *self {
            Effect::Nothing => EffectModel::Nothing,
            Effect::Spawn { size, cwd, command } => EffectModel::Spawn {
                size,
                cwd: optional_text(cwd),
                command: command_model(command),
            },
            Effect::Write { pane_id, data } => EffectModel::Write { pane_id, data: data@ },
            Effect::Resize { pane_id, size } => EffectModel::Resize { pane_id, size },
            Effect::Interrupt { pane_id } => EffectModel::Interrupt { pane_id },
            Effect::StoreDevices { devices } => EffectModel::StoreDevices {
                devices: entries_model(devices@),
            },
        }
    }
}

/// What an optional endpoint holds.
pub open spec fn optional_sync(s: Option<SyncState>) -> Option<SyncModel> {
    match s {
        Some(s) => Some(s@),
        None => None,
    }
}

/// Says what the caller has to do before `dispatch`. A request that will be
/// refused needs nothing. `cwd_is_dir` tells whether the directory that
/// `requested_cwd` gave is one.
pub fn effect_of(
    request: &Request,
    sm: &SessionManager,
    sync: &Option<SyncState>,
    cwd_is_dir: bool,
) -> (e: Effect)
    ensures
        e@ == if is_sync_method(method_named(request@.method)) {
            devices_needed(optional_sync(*sync), request@)
        } else {
            needed(sm@, request@, cwd_is_dir)
        },
{
    match method_of(request.method.as_str()) {
        Method::NewTab => {
            let workspace_idx: usize = match request.params.unsigned_at("workspace_idx") {
                Some(n) => n as usize,
                None => 0,
            };
            match sm.check_workspace(workspace_idx) {
                Err(_) => Effect::Nothing,
                Ok(()) => Effect::Spawn {
                    size: size_param(&request.params),
                    cwd: cwd_param(&request.params, cwd_is_dir),
                    command: command_param(&request.params),
                },
            }
        },
        Method::CreateWorkspace => Effect::Spawn {
            size: PtySize {
                rows: DEFAULT_ROWS,
                cols: DEFAULT_COLS,
                pixel_width: 0,
                pixel_height: 0,
            },
            cwd: None,
            command: None,
        },
        Method::SplitPane => match split_params(request, sm) {
            Err(_) => Effect::Nothing,
            Ok((pane, _)) => Effect::Spawn {
                size: size_param(&request.params),
                cwd: split_cwd_param(request, sm, pane, cwd_is_dir),
                command: None,
            },
        },
        Method::SendInput => match input_params(request, sm) {
            Err(_) => Effect::Nothing,
            Ok((pane_id, data)) => Effect::Write { pane_id, data },
        },
        Method::ResizePane => match resize_params(request, sm) {
            Err(_) => Effect::Nothing,
            Ok((pane_id, size)) => Effect::Resize { pane_id, size },
        },
        Method::SendSigint => match require_pane_id(request, sm) {
            Err(_) => Effect::Nothing,
            Ok(pane_id) => Effect::Interrupt { pane_id },
        },
        Method::RevokeDevice => match sync {
            None => Effect::Nothing,
            Some(state) => match remaining_devices(request, state) {
                None => Effect::Nothing,
                Some(devices) => Effect::StoreDevices { devices },
            },
        },
        _ => Effect::Nothing,
    }
}

/// Answers a request. `io` is how that went which `effect_of` asked for; of a
/// request that needs nothing it is not looked at.
///
/// Requests about other devices need an endpoint and are refused without one.
pub fn dispatch(
    request: &Request,
    sm: &mut SessionManager,
    sync: &mut Option<SyncState>,
    io: Io,
) -> (r: Response)
    requires
        old(sm).wf(),
        is_fresh(old(sm)@, io.pane_id),
        is_fresh_tab(old(sm)@, io.tab_id),
    ensures
        final(sm).wf(),
        if is_sync_method(method_named(request@.method)) {
            &&& final(sm)@ == old(sm)@
            &&& match optional_sync(*old(sync)) {
                None => r@ == unavailable(request@) && *final(sync) == *old(sync),
                Some(s) => optional_sync(*final(sync)) matches Some(after) && devices_answered(
                    s,
                    request@,
                    io@.done,
                    r@,
                    after,
                ),
            }
        } else {
            &&& *final(sync) == *old(sync)
            &&& session_answer(old(sm)@, request@, io@) == (Answer {
                response: r@,
                session: final(sm)@,
            })
        },
{
    match method_of(request.method.as_str()) {
        Method::ListTabs => handle_list_tabs(request, sm),
        Method::GetLayout => handle_get_layout(request, sm),
        Method::NewTab => handle_new_tab(request, sm, io),
        Method::CloseTab => handle_close_tab(request, sm),
        Method::FocusTab => handle_focus_tab(request, sm),
        Method::SetActiveWorkspace => handle_set_active_workspace(request, sm),
        Method::SplitPane => handle_split_pane(request, sm, io),
        Method::MoveTab => handle_move_tab(request, sm),
        Method::SendInput => {
            let ghost iom = io@;
            let r = handle_send_input(request, sm, io.done);
            assert(r@ == send_input_answer(sm@, request@, iom).response);
            r
        },
        Method::GetPaneInfo => handle_get_pane_info(request, sm),
        Method::ResizePane => handle_resize_pane(request, sm, io),
        Method::SendSigint => {
            let ghost iom = io@;
            let r = handle_send_sigint(request, sm, io.done);
            assert(r@ == send_sigint_answer(sm@, request@, iom).response);
            r
        },
        Method::Notify => handle_notify(request, sm),
        Method::ClosePane => handle_close_pane(request, sm),
        Method::CreateWorkspace => handle_create_workspace(request, sm, io),
        Method::RenameWorkspace => handle_rename_workspace(request, sm),
        Method::DeleteWorkspace => handle_delete_workspace(request, sm),
        Method::UpdateSplitRatios => handle_update_split_ratios(request, sm),
        Method::SetPinned => handle_set_pinned(request, sm),
        Method::GetPinned => handle_get_pinned(request, sm),
        Method::Unknown => refuse_with(
            request,
            METHOD_NOT_FOUND,
            "Unknown method: ",
            request.method.as_str(),
        ),
        _ => match sync {
            None => dispatch_unavailable(request),
            Some(state) => dispatch_devices(request, state, io.done),
        },
    }
}

} // verus!

//! What each request is answered, and what it does to a session: the rules, as
//! functions of the session, the request and what the caller did for it.

use vstd::prelude::*;

use crate::ids::{uuid_of_text, uuid_text, PaneId, Uuid};
use crate::pty::size::PtySize;
use crate::ratio::{Ratio, HALF_BITS};
use crate::session::events::EventModel;
use crate::session::layout::{
    find_pane, find_tab, leaves, LayoutModel, PaneTree, TabModel, WorkspaceModel,
};
use crate::session::manager::{bounds_words, initial_cwd, missing_words, with_size};
use crate::session::model::{
    emit, layout_with_ratios, move_target, pane_closed, pane_record, registered, sibling_promoted,
    tab_closed, tab_moved, with_pane_in_new_tab, with_split_pane, with_tabs, workspace_deleted,
    PaneModel, SessionModel,
};
use crate::socket::codec::base64_bytes_of;
use crate::socket::json::{optional_json, JsonModel};
use crate::socket::methods::{method_named, Method};
use crate::sync::registry::DeviceModel;
use crate::socket::protocol::{
    error_model, success_model, Request, ResponseModel, INTERNAL_ERROR, INVALID_PARAMS,
    METHOD_NOT_FOUND,
};

verus! {

/// A request as a mathematical value.
pub ghost struct RequestModel {
    pub method: Seq<char>,
    pub params: JsonModel,
    pub id: Option<JsonModel>,
}

impl View for Request {
    type V = RequestModel;

    open spec fn view(&self) -> RequestModel {
        RequestModel {
            method: self.method@,
            params: self.params@,
            id: optional_json(self.id),
        }
    }
}

/// What the caller did for a request, or has ready for it.
#[derive(Debug, PartialEq, Eq)]
pub struct Io {
    /// An id for a pane that the request may create.
    pub pane_id: PaneId,
    /// An id for a tab that the request may create.
    pub tab_id: Uuid,
    /// An id for a workspace that the request may create.
    pub workspace_id: Uuid,
    /// How starting a process went: its id, or why it failed.
    pub spawned: Result<Option<u32>, String>,
    /// How writing, resizing or storing went.
    pub done: Result<(), String>,
    /// Whether the directory that the request names is one.
    pub cwd_is_dir: bool,
    /// The home directory of the user.
    pub home: Option<String>,
}

/// The same as a mathematical value.
pub ghost struct IoModel {
    pub pane_id: PaneId,
    pub tab_id: Uuid,
    pub workspace_id: Uuid,
    pub spawned: Result<Option<u32>, Seq<char>>,
    pub done: Result<(), Seq<char>>,
    pub cwd_is_dir: bool,
    pub home: Option<Seq<char>>,
}

impl View for Io {
    type V = IoModel;

    open spec fn view(&self) -> IoModel {
        IoModel {
            pane_id: self.pane_id,
            tab_id: self.tab_id,
            workspace_id: self.workspace_id,
            spawned: match self.spawned {
                Ok(pid) => Ok(pid),
                Err(words) => Err(words@),
            },
            done: match self.done {
                Ok(()) => Ok(()),
                Err(words) => Err(words@),
            },
            cwd_is_dir: self.cwd_is_dir,
            home: match self.home {
                Some(h) => Some(h@),
                None => None,
            },
        }
    }
}

/// A response together with the session after the request.
pub ghost struct Answer {
    pub response: ResponseModel,
    pub session: SessionModel,
}

/// The result `{"ok": true}`.
pub open spec fn ok_json() -> JsonModel {
    JsonModel::Object(seq![("ok"@, JsonModel::Bool(true))])
}

/// Success, with a changed session.
pub open spec fn done(q: RequestModel, after: SessionModel) -> Answer {
    Answer { response: success_model(q.id, ok_json()), session: after }
}

/// A refusal, which leaves the session as it is.
pub open spec fn refused(m: SessionModel, q: RequestModel, code: i32, words: Seq<char>) -> Answer {
    Answer { response: error_model(q.id, code, words), session: m }
}

/// A number as a terminal size: its low sixteen bits.
pub open spec fn low_bits(n: u64) -> u16 {
    (n % 65536) as u16
}

/// The terminal size that a request asks for, 24 by 80 where it does not.
pub open spec fn asked_size(params: JsonModel) -> PtySize {
    PtySize {
        rows: match params.unsigned_at("rows"@) {
            Some(n) => low_bits(n),
            None => 24,
        },
        cols: match params.unsigned_at("cols"@) {
            Some(n) => low_bits(n),
            None => 80,
        },
        pixel_width: 0,
        pixel_height: 0,
    }
}

/// The size of a terminal nobody asked a size for.
pub open spec fn default_size() -> PtySize {
    PtySize { rows: 24, cols: 80, pixel_width: 0, pixel_height: 0 }
}

/// The directory that a request names, where it names one and it is one.
pub open spec fn asked_cwd(params: JsonModel, is_dir: bool) -> Option<Seq<char>> {
    match params.text_at("cwd"@) {
        Some(d) => if d.len() > 0 && is_dir {
            Some(d)
        } else {
            None
        },
        None => None,
    }
}

/// The strings among some values, in their order.
pub open spec fn texts(items: Seq<JsonModel>) -> Seq<Seq<char>>
    decreases items.len(),
{
    if items.len() == 0 {
        Seq::empty()
    } else {
        match items.last() {
            JsonModel::Text(s) => texts(items.drop_last()).push(s),
            _ => texts(items.drop_last()),
        }
    }
}

/// The command that a request names, where it names one.
pub open spec fn asked_command(params: JsonModel) -> Option<Seq<Seq<char>>> {
    match params.items_at("command"@) {
        Some(items) => if texts(items).len() > 0 {
            Some(texts(items))
        } else {
            None
        },
        None => None,
    }
}

/// The live pane that a request names, or why there is none.
pub open spec fn named_pane(m: SessionModel, params: JsonModel) -> Result<PaneId, Seq<char>> {
    match params.text_at("pane_id"@) {
        None => Err("missing param: pane_id"@),
        Some(raw) => match uuid_of_text(raw) {
            None => Err("invalid UUID: "@ + raw),
            Some(v) => if registered(m.panes, PaneId(Uuid { value: v })) {
                Ok(PaneId(Uuid { value: v }))
            } else {
                Err("pane not found: "@ + raw)
            },
        },
    }
}

/// The tab id that a request names, or why there is none.
pub open spec fn named_tab(params: JsonModel) -> Result<Uuid, Seq<char>> {
    match params.text_at("tab_id"@) {
        None => Err("missing param: tab_id"@),
        Some(raw) => match uuid_of_text(raw) {
            None => Err("invalid UUID: "@ + raw),
            Some(v) => Ok(Uuid { value: v }),
        },
    }
}

/// A pane that has just been started.
pub open spec fn started_pane(
    id: PaneId,
    pid: Option<u32>,
    size: PtySize,
    cwd: Option<Seq<char>>,
    home: Option<Seq<char>>,
) -> PaneModel {
    PaneModel {
        id,
        pid,
        cwd: initial_cwd(cwd, home),
        title: Seq::empty(),
        rows: size.rows,
        cols: size.cols,
    }
}

// ---------------------------------------------------------------------------
// JSON of panes and layouts
// ---------------------------------------------------------------------------
/// The id of a process, or null.
pub open spec fn pid_json(pid: Option<u32>) -> JsonModel {
    match pid {
        Some(n) => JsonModel::Unsigned(n as u64),
        None => JsonModel::Null,
    }
}

/// An id as a JSON string.
pub open spec fn id_json(id: Uuid) -> JsonModel {
    JsonModel::Text(uuid_text(id.value))
}

/// A pane as `list_tabs` and `get_pane_info` show it.
pub open spec fn pane_json(p: PaneModel) -> JsonModel {
    JsonModel::Object(
        seq![
            ("pane_id"@, id_json(p.id.0)),
            ("pid"@, pid_json(p.pid)),
            ("rows"@, JsonModel::Unsigned(p.rows as u64)),
            ("cols"@, JsonModel::Unsigned(p.cols as u64)),
            ("cwd"@, JsonModel::Text(p.cwd)),
            ("title"@, JsonModel::Text(p.title)),
        ],
    )
}

/// A pane tree as `get_layout` shows it.
pub open spec fn tree_json(t: PaneTree) -> JsonModel
    decreases t,
{
    match t {
        PaneTree::Leaf { pane_id } => JsonModel::Object(
            seq![("Leaf"@, JsonModel::Object(seq![("pane_id"@, id_json(pane_id.0))]))],
        ),
        PaneTree::Split { direction, ratio, first, second } => JsonModel::Object(
            seq![
                (
                    "Split"@,
                    JsonModel::Object(
                        seq![
                            ("direction"@, JsonModel::Text(direction)),
                            ("ratio"@, JsonModel::Single(ratio)),
                            ("first"@, tree_json(*first)),
                            ("second"@, tree_json(*second)),
                        ],
                    ),
                ),
            ],
        ),
    }
}

/// A tab as `get_layout` shows it.
pub open spec fn tab_json(t: TabModel) -> JsonModel {
    JsonModel::Object(
        seq![
            ("id"@, id_json(t.id)),
            ("title"@, JsonModel::Text(t.title)),
            ("pane_tree"@, tree_json(t.pane_tree)),
        ],
    )
}

/// A workspace as `get_layout` shows it.
pub open spec fn workspace_json(w: WorkspaceModel) -> JsonModel {
    JsonModel::Object(
        seq![
            ("id"@, id_json(w.id)),
            ("name"@, JsonModel::Text(w.name)),
            ("tabs"@, JsonModel::Array(Seq::new(w.tabs.len(), |i: int| tab_json(w.tabs[i])))),
            ("active_tab"@, JsonModel::Unsigned(w.active_tab as u64)),
        ],
    )
}

/// A layout as `get_layout` shows it.
pub open spec fn layout_json(l: LayoutModel) -> JsonModel {
    JsonModel::Object(
        seq![
            (
                "workspaces"@,
                JsonModel::Array(
                    Seq::new(l.workspaces.len(), |i: int| workspace_json(l.workspaces[i])),
                ),
            ),
            ("active_workspace"@, JsonModel::Unsigned(l.active_workspace as u64)),
        ],
    )
}

// ---------------------------------------------------------------------------
// The answers
// ---------------------------------------------------------------------------
pub open spec fn list_tabs_answer(m: SessionModel, q: RequestModel) -> Answer {
    Answer {
        response: success_model(
            q.id,
            JsonModel::Object(
                seq![
                    (
                        "tabs"@,
                        JsonModel::Array(Seq::new(m.panes.len(), |i: int| pane_json(m.panes[i]))),
                    ),
                ],
            ),
        ),
        session: m,
    }
}

pub open spec fn get_layout_answer(m: SessionModel, q: RequestModel) -> Answer {
    Answer { response: success_model(q.id, layout_json(m.layout)), session: m }
}

/// The workspace that a request names, the first where it names none.
pub open spec fn asked_workspace(params: JsonModel) -> usize {
    match params.unsigned_at("workspace_idx"@) {
        Some(n) => n as usize,
        None => 0,
    }
}

/// The session with a started pane in a new tab, both announced.
pub open spec fn tab_created(
    m: SessionModel,
    workspace_idx: usize,
    pane: PaneModel,
    tab_id: Uuid,
) -> SessionModel {
    emit(
        emit(
            with_pane_in_new_tab(m, workspace_idx as int, pane, tab_id),
            EventModel::PaneCreated { pane_id: pane.id },
        ),
        EventModel::TabCreated { workspace_idx, tab_id, pane_id: pane.id },
    )
}

/// Creates a tab whose process the caller started, in the workspace that the
/// request names.
pub open spec fn new_tab_answer(m: SessionModel, q: RequestModel, io: IoModel) -> Answer {
    let w = asked_workspace(q.params);
    if w >= m.layout.workspaces.len() {
        refused(
            m,
            q,
            INTERNAL_ERROR,
            "failed to create tab: "@ + bounds_words(
                "workspace index "@,
                w as nat,
                m.layout.workspaces.len(),
            ),
        )
    } else {
        match io.spawned {
            Err(words) => refused(m, q, INTERNAL_ERROR, "failed to create tab: "@ + words),
            Ok(pid) => Answer {
                response: success_model(
                    q.id,
                    JsonModel::Object(
                        seq![
                            ("tab_id"@, id_json(io.tab_id)),
                            ("pane_id"@, id_json(io.pane_id.0)),
                        ],
                    ),
                ),
                session: tab_created(
                    m,
                    w,
                    started_pane(
                        io.pane_id,
                        pid,
                        asked_size(q.params),
                        asked_cwd(q.params, io.cwd_is_dir),
                        io.home,
                    ),
                    io.tab_id,
                ),
            },
        }
    }
}

/// Closes the tab with an id, with all its panes.
pub open spec fn tab_closed_answer(m: SessionModel, q: RequestModel, tab: Uuid, what: Seq<char>) -> Answer {
    match find_tab(m.layout, tab) {
        Some((w, t)) => done(q, tab_closed(m, w, t)),
        None => refused(
            m,
            q,
            INTERNAL_ERROR,
            what + missing_words("close_tab: tab "@, tab, " not found"@),
        ),
    }
}

/// Closes a tab that the request names by its id, or by one of its panes.
pub open spec fn close_tab_answer(m: SessionModel, q: RequestModel) -> Answer {
    match q.params.text_at("tab_id"@) {
        Some(raw) => match uuid_of_text(raw) {
            None => refused(m, q, INVALID_PARAMS, "invalid UUID: "@ + raw),
            Some(v) => tab_closed_answer(m, q, Uuid { value: v }, "failed to close tab: "@),
        },
        None => match q.params.text_at("pane_id"@) {
            None => refused(m, q, INVALID_PARAMS, "missing param: tab_id or pane_id"@),
            Some(_) => match named_pane(m, q.params) {
                Err(words) => refused(m, q, INVALID_PARAMS, words),
                Ok(pane) => match find_pane(m.layout, pane) {
                    Some((w, t)) => tab_closed_answer(
                        m,
                        q,
                        m.layout.workspaces[w].tabs[t].id,
                        "failed to close tab: "@,
                    ),
                    None => done(q, pane_closed(m, pane)),
                },
            },
        },
    }
}

/// Makes a tab the active one of its workspace.
pub open spec fn focus_tab_answer(m: SessionModel, q: RequestModel) -> Answer {
    match named_tab(q.params) {
        Err(words) => refused(m, q, INVALID_PARAMS, words),
        Ok(tab) => match find_tab(m.layout, tab) {
            None => refused(
                m,
                q,
                INVALID_PARAMS,
                "tab not found: "@ + q.params.text_at("tab_id"@)->0,
            ),
            Some((w, t)) => done(
                q,
                emit(
                    SessionModel {
                        layout: with_tabs(
                            m.layout,
                            w,
                            m.layout.workspaces[w].tabs,
                            t as usize,
                        ),
                        ..m
                    },
                    EventModel::ActiveTabChanged {
                        workspace_idx: w as usize,
                        tab_idx: t as usize,
                    },
                ),
            ),
        },
    }
}

/// Makes a workspace the active one.
pub open spec fn set_active_workspace_answer(m: SessionModel, q: RequestModel) -> Answer {
    match q.params.unsigned_at("workspace_idx"@) {
        None => refused(m, q, INVALID_PARAMS, "missing param: workspace_idx"@),
        Some(n) => {
            let w = n as usize;
            if w >= m.layout.workspaces.len() {
                refused(
                    m,
                    q,
                    INVALID_PARAMS,
                    "set_active_workspace failed: "@ + bounds_words(
                        "set_active_workspace: workspace index "@,
                        w as nat,
                        m.layout.workspaces.len(),
                    ),
                )
            } else if m.layout.active_workspace == w {
                done(q, m)
            } else {
                done(
                    q,
                    emit(
                        SessionModel {
                            layout: LayoutModel { active_workspace: w, ..m.layout },
                            ..m
                        },
                        EventModel::ActiveWorkspaceChanged { workspace_idx: w },
                    ),
                )
            }
        },
    }
}

/// Closes one pane. Where it is alone in its tab the tab goes; else its sibling
/// takes the place of the split.
pub open spec fn close_pane_answer(m: SessionModel, q: RequestModel) -> Answer {
    match named_pane(m, q.params) {
        Err(words) => refused(m, q, INVALID_PARAMS, words),
        Ok(pane) => match find_pane(m.layout, pane) {
            None => done(q, pane_closed(m, pane)),
            Some((w, t)) => {
                let tab = m.layout.workspaces[w].tabs[t];
                if leaves(tab.pane_tree).len() <= 1 {
                    tab_closed_answer(m, q, tab.id, "close_pane (via close_tab) failed: "@)
                } else {
                    done(q, sibling_promoted(pane_closed(m, pane), pane))
                }
            },
        },
    }
}

/// The name that a request gives a workspace.
pub open spec fn asked_name(params: JsonModel) -> Seq<char> {
    match params.text_at("name"@) {
        Some(s) => s,
        None => "Workspace"@,
    }
}

/// The session with one more, empty workspace, announced.
pub open spec fn workspace_created(m: SessionModel, id: Uuid, name: Seq<char>) -> SessionModel {
    emit(
        SessionModel {
            layout: LayoutModel {
                workspaces: m.layout.workspaces.push(
                    WorkspaceModel { id, name, tabs: Seq::empty(), active_tab: 0 },
                ),
                ..m.layout
            },
            ..m
        },
        EventModel::WorkspaceCreated {
            workspace_idx: m.layout.workspaces.len() as usize,
            workspace_id: id,
            name,
        },
    )
}

/// Creates a workspace with one tab. The workspace stays where starting the
/// process of the tab failed.
pub open spec fn create_workspace_answer(m: SessionModel, q: RequestModel, io: IoModel) -> Answer {
    let with_ws = workspace_created(m, io.workspace_id, asked_name(q.params));
    let w = m.layout.workspaces.len() as usize;
    match io.spawned {
        Err(words) => Answer {
            response: error_model(
                q.id,
                INTERNAL_ERROR,
                "create_workspace: create_tab failed: "@ + words,
            ),
            session: with_ws,
        },
        Ok(pid) => Answer {
            response: success_model(
                q.id,
                JsonModel::Object(
                    seq![
                        ("workspace_id"@, id_json(io.workspace_id)),
                        ("workspace_idx"@, JsonModel::Unsigned(w as u64)),
                        ("pane_id"@, id_json(io.pane_id.0)),
                        ("tab_id"@, id_json(io.tab_id)),
                    ],
                ),
            ),
            session: tab_created(
                with_ws,
                w,
                started_pane(io.pane_id, pid, default_size(), None, io.home),
                io.tab_id,
            ),
        },
    }
}

/// Renames a workspace.
pub open spec fn rename_workspace_answer(m: SessionModel, q: RequestModel) -> Answer {
    match q.params.unsigned_at("workspace_idx"@) {
        None => refused(m, q, INVALID_PARAMS, "missing param: workspace_idx (u64)"@),
        Some(n) => match q.params.text_at("name"@) {
            None => refused(m, q, INVALID_PARAMS, "missing param: name"@),
            Some(name) => {
                let w = n as usize;
                if w >= m.layout.workspaces.len() {
                    refused(
                        m,
                        q,
                        INTERNAL_ERROR,
                        "rename_workspace failed: "@ + bounds_words(
                            "workspace index "@,
                            w as nat,
                            m.layout.workspaces.len(),
                        ),
                    )
                } else if m.layout.workspaces[w as int].name == name {
                    done(q, m)
                } else {
                    done(
                        q,
                        emit(
                            SessionModel {
                                layout: LayoutModel {
                                    workspaces: m.layout.workspaces.update(
                                        w as int,
                                        WorkspaceModel { name, ..m.layout.workspaces[w as int] },
                                    ),
                                    ..m.layout
                                },
                                ..m
                            },
                            EventModel::WorkspaceRenamed {
                                workspace_idx: w,
                                workspace_id: m.layout.workspaces[w as int].id,
                                name,
                            },
                        ),
                    )
                }
            },
        },
    }
}

/// Deletes a workspace, but not the last one.
pub open spec fn delete_workspace_answer(m: SessionModel, q: RequestModel) -> Answer {
    match q.params.unsigned_at("workspace_idx"@) {
        None => refused(m, q, INVALID_PARAMS, "missing param: workspace_idx (u64)"@),
        Some(n) => {
            let w = n as usize;
            if w >= m.layout.workspaces.len() {
                refused(
                    m,
                    q,
                    INTERNAL_ERROR,
                    "delete_workspace failed: "@ + bounds_words(
                        "workspace index "@,
                        w as nat,
                        m.layout.workspaces.len(),
                    ),
                )
            } else if m.layout.workspaces.len() == 1 {
                refused(
                    m,
                    q,
                    INTERNAL_ERROR,
                    "delete_workspace failed: "@ + "cannot delete the last remaining workspace"@,
                )
            } else {
                done(q, workspace_deleted(m, w as int))
            }
        },
    }
}

/// The usable entries of a list of ratio updates, in their order: those with a
/// pane id that is one and a number as ratio.
pub open spec fn ratio_updates(items: Seq<JsonModel>) -> Seq<(PaneId, Ratio)>
    decreases items.len(),
{
    if items.len() == 0 {
        Seq::empty()
    } else {
        let before = ratio_updates(items.drop_last());
        match ratio_update(items.last()) {
            Some(u) => before.push(u),
            None => before,
        }
    }
}

/// One entry of such a list.
pub open spec fn ratio_update(item: JsonModel) -> Option<(PaneId, Ratio)> {
    match item.text_at("pane_id"@) {
        Some(raw) => match uuid_of_text(raw) {
            Some(v) => match item.ratio_at("ratio"@) {
                Some(r) => Some((PaneId(Uuid { value: v }), r)),
                None => None,
            },
            None => None,
        },
        None => None,
    }
}

/// Gives splits new ratios.
pub open spec fn update_split_ratios_answer(m: SessionModel, q: RequestModel) -> Answer {
    match q.params.items_at("ratios"@) {
        None => refused(
            m,
            q,
            INVALID_PARAMS,
            "missing param: ratios (array of {pane_id, ratio})"@,
        ),
        Some(items) => done(
            q,
            SessionModel { layout: layout_with_ratios(m.layout, ratio_updates(items)), ..m },
        ),
    }
}

/// Pins the session or unpins it.
pub open spec fn set_pinned_answer(m: SessionModel, q: RequestModel) -> Answer {
    match q.params.bool_at("pinned"@) {
        None => refused(m, q, INVALID_PARAMS, "missing param: pinned (bool)"@),
        Some(pinned) => done(q, SessionModel { pinned, ..m }),
    }
}

/// Tells whether the session is pinned.
pub open spec fn get_pinned_answer(m: SessionModel, q: RequestModel) -> Answer {
    Answer {
        response: success_model(
            q.id,
            JsonModel::Object(seq![("pinned"@, JsonModel::Bool(m.pinned))]),
        ),
        session: m,
    }
}

/// Whether a direction is one of the two.
pub open spec fn is_direction(d: Seq<char>) -> bool {
    d == "horizontal"@ || d == "vertical"@
}

/// The directory in which a split starts: the asked one, else that of the pane
/// that is split.
pub open spec fn split_cwd(m: SessionModel, q: RequestModel, pane: PaneId, is_dir: bool) -> Option<
    Seq<char>,
> {
    match asked_cwd(q.params, is_dir) {
        Some(d) => Some(d),
        None => match pane_record(m.panes, pane) {
            Some(p) => Some(p.cwd),
            None => None,
        },
    }
}

/// The pane to split and the direction, or why a request names none.
pub open spec fn asked_split(m: SessionModel, params: JsonModel) -> Result<
    (PaneId, Seq<char>),
    Seq<char>,
> {
    match named_pane(m, params) {
        Err(words) => Err(words),
        Ok(pane) => match params.text_at("direction"@) {
            None => Err("missing param: direction"@),
            Some(d) => if is_direction(d) {
                Ok((pane, d))
            } else {
                Err("direction must be 'horizontal' or 'vertical'"@)
            },
        },
    }
}

/// The session with a started pane beside another, both facts announced.
pub open spec fn pane_split(
    m: SessionModel,
    target: PaneId,
    pane: PaneModel,
    direction: Seq<char>,
    ratio: Ratio,
) -> SessionModel {
    let (w, t) = find_pane(m.layout, target)->0;
    emit(
        emit(
            with_split_pane(m, target, pane, direction, ratio),
            EventModel::PaneCreated { pane_id: pane.id },
        ),
        EventModel::PaneSplit {
            tab_id: m.layout.workspaces[w].tabs[t].id,
            parent_pane_id: target,
            new_pane_id: pane.id,
            direction,
        },
    )
}

/// Splits a pane evenly, with a pane whose process the caller started.
pub open spec fn split_pane_answer(m: SessionModel, q: RequestModel, io: IoModel) -> Answer {
    match asked_split(m, q.params) {
        Err(words) => refused(m, q, INVALID_PARAMS, words),
        Ok((pane, direction)) => match io.spawned {
            Err(words) => refused(m, q, INTERNAL_ERROR, "split_pane failed: "@ + words),
            Ok(pid) => Answer {
                response: success_model(
                    q.id,
                    JsonModel::Object(seq![("pane_id"@, id_json(io.pane_id.0))]),
                ),
                session: pane_split(
                    m,
                    pane,
                    started_pane(
                        io.pane_id,
                        pid,
                        asked_size(q.params),
                        split_cwd(m, q, pane, io.cwd_is_dir),
                        io.home,
                    ),
                    direction,
                    Ratio { bits: HALF_BITS },
                ),
            },
        },
    }
}

/// Moves a tab within its workspace.
pub open spec fn move_tab_answer(m: SessionModel, q: RequestModel) -> Answer {
    match named_tab(q.params) {
        Err(words) => refused(m, q, INVALID_PARAMS, words),
        Ok(tab) => match q.params.unsigned_at("new_index"@) {
            None => refused(m, q, INVALID_PARAMS, "missing param: new_index"@),
            Some(n) => match find_tab(m.layout, tab) {
                None => refused(
                    m,
                    q,
                    INTERNAL_ERROR,
                    "move_tab failed: "@ + missing_words("move_tab: tab "@, tab, " not found"@),
                ),
                Some((w, t)) => {
                    let ws = m.layout.workspaces[w];
                    let to = move_target(n as usize, ws.tabs.len());
                    if to == t {
                        done(q, m)
                    } else {
                        done(
                            q,
                            emit(
                                SessionModel {
                                    layout: LayoutModel {
                                        workspaces: m.layout.workspaces.update(
                                            w,
                                            tab_moved(ws, t, to),
                                        ),
                                        ..m.layout
                                    },
                                    ..m
                                },
                                EventModel::TabMoved {
                                    workspace_idx: w as usize,
                                    tab_id: tab,
                                    new_index: to as usize,
                                },
                            ),
                        )
                    }
                },
            },
        },
    }
}

/// The bytes that a request sends to a live pane, or why it sends none.
pub open spec fn asked_input(m: SessionModel, params: JsonModel) -> Result<
    (PaneId, Seq<u8>),
    Seq<char>,
> {
    match named_pane(m, params) {
        Err(words) => Err(words),
        Ok(pane) => match params.text_at("data"@) {
            None => Err("missing param: data"@),
            Some(text) => match base64_bytes_of(text) {
                None => Err("invalid base64 in data field"@),
                Some(bytes) => Ok((pane, bytes)),
            },
        },
    }
}

/// Answers input that the caller wrote to the terminal of a pane.
pub open spec fn send_input_answer(m: SessionModel, q: RequestModel, io: IoModel) -> Answer {
    match asked_input(m, q.params) {
        Err(words) => refused(m, q, INVALID_PARAMS, words),
        Ok(_) => match io.done {
            Ok(()) => done(q, m),
            Err(words) => refused(m, q, INTERNAL_ERROR, "failed to write PTY: "@ + words),
        },
    }
}

/// Tells what is known of a live pane.
pub open spec fn get_pane_info_answer(m: SessionModel, q: RequestModel) -> Answer {
    match named_pane(m, q.params) {
        Err(words) => refused(m, q, INVALID_PARAMS, words),
        Ok(pane) => Answer {
            response: success_model(q.id, pane_json(pane_record(m.panes, pane)->0)),
            session: m,
        },
    }
}

/// The pane to resize and its new size, or why a request names none.
pub open spec fn asked_resize(m: SessionModel, params: JsonModel) -> Result<
    (PaneId, PtySize),
    Seq<char>,
> {
    match named_pane(m, params) {
        Err(words) => Err(words),
        Ok(pane) => match params.unsigned_at("rows"@) {
            None => Err("missing param: rows"@),
            Some(rows) => match params.unsigned_at("cols"@) {
                None => Err("missing param: cols"@),
                Some(cols) => Ok(
                    (
                        pane,
                        PtySize {
                            rows: low_bits(rows),
                            cols: low_bits(cols),
                            pixel_width: 0,
                            pixel_height: 0,
                        },
                    ),
                ),
            },
        },
    }
}

/// Answers a resize that the caller made.
pub open spec fn resize_pane_answer(m: SessionModel, q: RequestModel, io: IoModel) -> Answer {
    match asked_resize(m, q.params) {
        Err(words) => refused(m, q, INVALID_PARAMS, words),
        Ok((pane, size)) => match io.done {
            Ok(()) => done(q, with_size(m, pane, size)),
            Err(words) => refused(m, q, INTERNAL_ERROR, "failed to resize pane: "@ + words),
        },
    }
}

/// Answers an interrupt that the caller wrote to the terminal of a pane.
pub open spec fn send_sigint_answer(m: SessionModel, q: RequestModel, io: IoModel) -> Answer {
    match named_pane(m, q.params) {
        Err(words) => refused(m, q, INVALID_PARAMS, words),
        Ok(_) => match io.done {
            Ok(()) => done(q, m),
            Err(words) => refused(m, q, INTERNAL_ERROR, "failed to send SIGINT: "@ + words),
        },
    }
}

/// Answers the report of a notification, which changes nothing.
pub open spec fn notify_answer(m: SessionModel, q: RequestModel) -> Answer {
    match named_pane(m, q.params) {
        Err(words) => refused(m, q, INVALID_PARAMS, words),
        Ok(_) => done(q, m),
    }
}

/// Answers a method that is not known.
pub open spec fn unknown_answer(m: SessionModel, q: RequestModel) -> Answer {
    refused(m, q, METHOD_NOT_FOUND, "Unknown method: "@ + q.method)
}

/// Whether a method is about other devices, not about the session.
pub open spec fn is_sync_method(method: Method) -> bool {
    method == Method::ListDevices || method == Method::RevokeDevice || method
        == Method::GetPairingInfo || method == Method::EnablePairing
}

/// The answer to a request about the session.
pub open spec fn session_answer(m: SessionModel, q: RequestModel, io: IoModel) -> Answer {
    match method_named(q.method) {
        Method::ListTabs => list_tabs_answer(m, q),
        Method::GetLayout => get_layout_answer(m, q),
        Method::NewTab => new_tab_answer(m, q, io),
        Method::CloseTab => close_tab_answer(m, q),
        Method::FocusTab => focus_tab_answer(m, q),
        Method::SetActiveWorkspace => set_active_workspace_answer(m, q),
        Method::SplitPane => split_pane_answer(m, q, io),
        Method::MoveTab => move_tab_answer(m, q),
        Method::SendInput => send_input_answer(m, q, io),
        Method::GetPaneInfo => get_pane_info_answer(m, q),
        Method::ResizePane => resize_pane_answer(m, q, io),
        Method::SendSigint => send_sigint_answer(m, q, io),
        Method::Notify => notify_answer(m, q),
        Method::ClosePane => close_pane_answer(m, q),
        Method::CreateWorkspace => create_workspace_answer(m, q, io),
        Method::RenameWorkspace => rename_workspace_answer(m, q),
        Method::DeleteWorkspace => delete_workspace_answer(m, q),
        Method::UpdateSplitRatios => update_split_ratios_answer(m, q),
        Method::SetPinned => set_pinned_answer(m, q),
        Method::GetPinned => get_pinned_answer(m, q),
        _ => unknown_answer(m, q),
    }
}

// ---------------------------------------------------------------------------
// What the caller has to do first
// ---------------------------------------------------------------------------
/// What the caller has to do before a request can be answered.
pub ghost enum EffectModel {
    Nothing,
    /// Start a process: a command, or the shell.
    Spawn { size: PtySize, cwd: Option<Seq<char>>, command: Option<Seq<Seq<char>>> },
    /// Write bytes to the terminal of a pane.
    Write { pane_id: PaneId, data: Seq<u8> },
    /// Resize the terminal of a pane.
    Resize { pane_id: PaneId, size: PtySize },
    /// Write an interrupt character to the terminal of a pane, and if that
    /// went well signal its foreground process group.
    Interrupt { pane_id: PaneId },
    /// Store a list of devices.
    StoreDevices { devices: Seq<DeviceModel> },
}

/// What a request about the session needs done first. A request that will be
/// refused needs nothing.
pub open spec fn needed(m: SessionModel, q: RequestModel, cwd_is_dir: bool) -> EffectModel {
    match method_named(q.method) {
        Method::NewTab => if asked_workspace(q.params) < m.layout.workspaces.len() {
            EffectModel::Spawn {
                size: asked_size(q.params),
                cwd: asked_cwd(q.params, cwd_is_dir),
                command: asked_command(q.params),
            }
        } else {
            EffectModel::Nothing
        },
        Method::CreateWorkspace => EffectModel::Spawn {
            size: default_size(),
            cwd: None,
            command: None,
        },
        Method::SplitPane => match asked_split(m, q.params) {
            Ok((pane, _)) => EffectModel::Spawn {
                size: asked_size(q.params),
                cwd: split_cwd(m, q, pane, cwd_is_dir),
                command: None,
            },
            Err(_) => EffectModel::Nothing,
        },
        Method::SendInput => match asked_input(m, q.params) {
            Ok((pane_id, data)) => EffectModel::Write { pane_id, data },
            Err(_) => EffectModel::Nothing,
        },
        Method::ResizePane => match asked_resize(m, q.params) {
            Ok((pane_id, size)) => EffectModel::Resize { pane_id, size },
            Err(_) => EffectModel::Nothing,
        },
        Method::SendSigint => match named_pane(m, q.params) {
            Ok(pane_id) => EffectModel::Interrupt { pane_id },
            Err(_) => EffectModel::Nothing,
        },
        _ => EffectModel::Nothing,
    }
}

} // verus!

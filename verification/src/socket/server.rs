//! Connections: which request is answered how, and what subscribers are sent.

use vstd::prelude::*;

use crate::ids::{PaneId, Uuid};
use crate::session::events::{EventModel, SessionEvent};
use crate::session::byte_log::{joined, law_snapshot_then_live, LogModel};
use crate::session::manager::{with_logged, with_output, SessionManager};
use crate::session::model::{log_ids, log_of, session_ok, SessionModel};
use crate::seqs::{keep_last, lemma_first_is};
use crate::socket::answers::{id_json, named_pane, ok_json, RequestModel};
use crate::socket::framing::{frame, write_frame, MAX_FRAME_SIZE};
use crate::socket::handlers::require_pane_id;
use crate::socket::json::{copy_optional, object1, object2, object3, object4, text, Json, JsonModel};
use crate::socket::methods::{
    DISCONNECT, IS_ATTACHED, SHUTDOWN, SHUTDOWN_CLEAN, SHUTDOWN_SAVE, SUBSCRIBE_LAYOUT,
    SUBSCRIBE_OUTPUT,
};
use crate::socket::protocol::{
    error_model, success_model, Request, Response, ResponseModel, INVALID_PARAMS,
};
use crate::text::{
    chars_of, is_white_space, join_path, path_in, same_text, text_of, trim_end, trimmed_end,
    white_space,
};

verus! {

// ---------------------------------------------------------------------------
// Counting connections
// ---------------------------------------------------------------------------
/// The number of open connections.
#[derive(Clone, Copy, Debug, PartialEq, Eq, Structural)]
pub struct ConnGuard {
    pub count: usize,
}

impl ConnGuard {
    /// Counts a connection that opens. There are fewer than `usize::MAX`.
    pub fn new(open: ConnGuard) -> (g: ConnGuard)
        requires
            open.count < usize::MAX,
        ensures
            g.count == open.count + 1,
    {
        ConnGuard { count: open.count + 1 }
    }

    /// Counts a connection that ends.
    pub fn end(open: ConnGuard) -> (g: ConnGuard)
        requires
            open.count > 0,
        ensures
            g.count == open.count - 1,
    {
        ConnGuard { count: open.count - 1 }
    }
}

// ---------------------------------------------------------------------------
// Lines
// ---------------------------------------------------------------------------
/// A text without the white space at its start.
pub open spec fn trimmed_start(s: Seq<char>) -> Seq<char>
    decreases s.len(),
{
    if s.len() > 0 && is_white_space(s[0]) {
        trimmed_start(s.skip(1))
    } else {
        s
    }
}

/// A text without the white space at its start and at its end.
pub open spec fn trimmed(s: Seq<char>) -> Seq<char> {
    trimmed_start(trimmed_end(s))
}

fn trim(line: &str) -> (chars: Vec<char>)
    ensures
        chars@ == trimmed(line@),
{
    let mut chars = chars_of(line);
    trim_end(&mut chars);
    let ghost all = chars@;
    let mut i: usize = 0;
    assert(all.skip(0) =~= all);
    while i < chars.len() && white_space(chars[i])
        invariant
            i <= chars@.len(),
            chars@ == all,
            trimmed_start(all) == trimmed_start(all.skip(i as int)),
        decreases chars@.len() - i,
    {
        assert(all.skip(i as int).skip(1) =~= all.skip(i as int + 1));
        i = i + 1;
    }
    let mut out: Vec<char> = Vec::new();
    let ghost rest = all.skip(i as int);
    assert(trimmed_start(rest) == rest);
    let mut k: usize = i;
    while k < chars.len()
        invariant
            i <= k <= chars@.len(),
            chars@ == all,
            rest == all.skip(i as int),
            out@ == rest.take(k - i),
        decreases chars@.len() - k,
    {
        out.push(chars[k]);
        k = k + 1;
        assert(out@ =~= rest.take(k - i));
    }
    assert(out@ =~= rest);
    out
}

/// The request in a line, without the white space around it; none in a blank
/// line, which is passed over.
pub fn request_line(line: &str) -> (request: Option<String>)
    ensures
        match request {
            Some(s) => s@ == trimmed(line@) && s@.len() > 0,
            None => trimmed(line@).len() == 0,
        },
{
    let chars = trim(line);
    if chars.len() == 0 {
        None
    } else {
        Some(text_of(chars.as_slice()))
    }
}

// ---------------------------------------------------------------------------
// Requests on a connection
// ---------------------------------------------------------------------------
/// What else there is to do after a response that ends a connection.
#[derive(Clone, Copy, Debug, PartialEq, Eq, Structural)]
pub struct Ending {
    /// Bring the byte logs to disk.
    pub flush: bool,
    /// Save the session, where it has an id.
    pub save: bool,
    /// Move the saved session to the trash, where saving went well.
    pub trash: bool,
    /// End the daemon.
    pub exit: bool,
}

/// What becomes of a request on a connection.
#[derive(Debug, PartialEq, Eq)]
pub enum Step {
    /// Send the response and read on.
    Reply(Response),
    /// Send the response and close the connection.
    ReplyAndClose(Response),
    /// Send the response, then the output of a pane.
    StreamOutput { ack: Response, pane_id: PaneId },
    /// Send the response, then changes of the layout.
    StreamLayout { ack: Response },
    /// Send the response, then end as it says.
    End { ack: Response, ending: Ending },
    /// Give the request to its handler.
    Dispatch,
}

/// The same as a mathematical value.
pub ghost enum StepModel {
    Reply(ResponseModel),
    ReplyAndClose(ResponseModel),
    StreamOutput { ack: ResponseModel, pane_id: PaneId },
    StreamLayout { ack: ResponseModel },
    End { ack: ResponseModel, ending: Ending },
    Dispatch,
}

impl View for Step {
    type V = StepModel;

    open spec fn view(&self) -> StepModel {
        match *self {
            Step::Reply(r) => StepModel::Reply(r@),
            Step::ReplyAndClose(r) => StepModel::ReplyAndClose(r@),
            Step::StreamOutput { ack, pane_id } => StepModel::StreamOutput { ack: ack@, pane_id },
            Step::StreamLayout { ack } => StepModel::StreamLayout { ack: ack@ },
            Step::End { ack, ending } => StepModel::End { ack: ack@, ending },
            Step::Dispatch => StepModel::Dispatch,
        }
    }
}

/// What becomes of a request on one of `connections` open connections:
/// subscriptions need a live pane or nothing at all; the ways to end are
/// acknowledged first; a session that is pinned is not moved to the trash.
pub open spec fn step_for(
    m: SessionModel,
    q: RequestModel,
    connections: usize,
) -> StepModel {
    let ack = success_model(q.id, ok_json());
    if q.method == SUBSCRIBE_OUTPUT@ {
        match named_pane(m, q.params) {
            Err(words) => StepModel::ReplyAndClose(error_model(q.id, INVALID_PARAMS, words)),
            Ok(pane_id) => StepModel::StreamOutput { ack, pane_id },
        }
    } else if q.method == SUBSCRIBE_LAYOUT@ {
        StepModel::StreamLayout { ack }
    } else if q.method == SHUTDOWN_SAVE@ {
        StepModel::End {
            ack,
            ending: Ending { flush: true, save: true, trash: false, exit: true },
        }
    } else if q.method == SHUTDOWN_CLEAN@ {
        StepModel::End {
            ack,
            ending: Ending { flush: true, save: true, trash: !m.pinned, exit: true },
        }
    } else if q.method == DISCONNECT@ {
        StepModel::End {
            ack,
            ending: Ending { flush: true, save: true, trash: false, exit: false },
        }
    } else if q.method == SHUTDOWN@ {
        StepModel::End {
            ack,
            ending: Ending { flush: false, save: false, trash: false, exit: true },
        }
    } else if q.method == IS_ATTACHED@ {
        StepModel::Reply(
            success_model(
                q.id,
                JsonModel::Object(seq![("attached"@, JsonModel::Bool(connections > 1))]),
            ),
        )
    } else {
        StepModel::Dispatch
    }
}

fn ack(request: &Request) -> (r: Response)
    ensures
        r@ == success_model(request@.id, ok_json()),
{
    Response::success(copy_optional(&request.id), object1("ok", Json::Bool(true)))
}

/// Decides what becomes of a request on one of `connections` open connections.
pub fn connection_step(request: &Request, sm: &SessionManager, connections: usize) -> (s: Step)
    ensures
        s@ == step_for(sm@, request@, connections),
{
    let method = request.method.as_str();
    if same_text(method, SUBSCRIBE_OUTPUT) {
        match require_pane_id(request, sm) {
            Err(e) => Step::ReplyAndClose(e),
            Ok(pane_id) => Step::StreamOutput { ack: ack(request), pane_id },
        }
    } else if same_text(method, SUBSCRIBE_LAYOUT) {
        Step::StreamLayout { ack: ack(request) }
    } else if same_text(method, SHUTDOWN_SAVE) {
        Step::End {
            ack: ack(request),
            ending: Ending { flush: true, save: true, trash: false, exit: true },
        }
    } else if same_text(method, SHUTDOWN_CLEAN) {
        Step::End {
            ack: ack(request),
            ending: Ending { flush: true, save: true, trash: !sm.is_pinned(), exit: true },
        }
    } else if same_text(method, DISCONNECT) {
        Step::End {
            ack: ack(request),
            ending: Ending { flush: true, save: true, trash: false, exit: false },
        }
    } else if same_text(method, SHUTDOWN) {
        Step::End {
            ack: ack(request),
            ending: Ending { flush: false, save: false, trash: false, exit: true },
        }
    } else if same_text(method, IS_ATTACHED) {
        Step::Reply(
            Response::success(
                copy_optional(&request.id),
                object1("attached", Json::Bool(connections > 1)),
            ),
        )
    } else {
        Step::Dispatch
    }
}

// ---------------------------------------------------------------------------
// Streams
// ---------------------------------------------------------------------------
/// What a streaming connection waits for.
#[derive(Debug, PartialEq, Eq)]
pub enum StreamInput {
    /// An event of the session.
    Event(SessionEvent),
    /// Events were lost because the subscriber was too slow.
    Lagged,
    /// The session ends.
    Closed,
    /// The client closed the connection, or reading from it failed.
    ClientClosed,
    /// The client sent something.
    ClientBytes,
}

/// What a streaming connection does next.
#[derive(Debug, PartialEq, Eq)]
pub enum StreamStep {
    /// Send these bytes.
    Send(Vec<u8>),
    /// Wait on.
    Wait,
    /// Close the connection.
    End,
}

/// The same as a mathematical value.
pub ghost enum StreamStepModel {
    Send(Seq<u8>),
    Wait,
    End,
}

impl View for StreamStep {
    type V = StreamStepModel;

    open spec fn view(&self) -> StreamStepModel {
        match *self {
            StreamStep::Send(b) => StreamStepModel::Send(b@),
            StreamStep::Wait => StreamStepModel::Wait,
            StreamStep::End => StreamStepModel::End,
        }
    }
}

/// Bytes as a frame. No frame is sent for none, and more than fit into a frame
/// end the stream.
pub open spec fn framed(data: Seq<u8>) -> StreamStepModel {
    if data.len() == 0 {
        StreamStepModel::Wait
    } else if data.len() > MAX_FRAME_SIZE {
        StreamStepModel::End
    } else {
        StreamStepModel::Send(frame(data))
    }
}

/// Puts bytes into a frame: what a subscriber to a pane is sent first, the
/// bytes kept of it, and later every chunk of output.
pub fn frame_step(data: &[u8]) -> (s: StreamStep)
    ensures
        s@ == framed(data@),
{
    if data.len() == 0 {
        return StreamStep::Wait;
    }
    let mut out: Vec<u8> = Vec::new();
    match write_frame(&mut out, data) {
        Ok(()) => {
            assert(out@ =~= frame(data@));
            StreamStep::Send(out)
        },
        Err(_) => StreamStep::End,
    }
}

/// What the stream of a pane's output does for an event: output of this pane is
/// sent as it is, the end of the pane ends the stream.
pub open spec fn output_step_for(pane: PaneId, event: EventModel) -> StreamStepModel {
    match event {
        EventModel::PtyOutput { pane_id, data } => if pane_id == pane {
            framed(data)
        } else {
            StreamStepModel::Wait
        },
        EventModel::PaneClosed { pane_id } => if pane_id == pane {
            StreamStepModel::End
        } else {
            StreamStepModel::Wait
        },
        _ => StreamStepModel::Wait,
    }
}

/// Decides what the stream of a pane's output does next. What the client writes
/// is dropped: the stream goes on until the pane or the connection is closed.
pub fn output_step(pane_id: PaneId, input: &StreamInput) -> (s: StreamStep)
    ensures
        s@ == match *input {
            StreamInput::Event(e) => output_step_for(pane_id, e@),
            StreamInput::Lagged => StreamStepModel::Wait,
            StreamInput::Closed => StreamStepModel::End,
            StreamInput::ClientClosed => StreamStepModel::End,
            StreamInput::ClientBytes => StreamStepModel::Wait,
        },
{
    match input {
        StreamInput::Event(event) => match event {
            SessionEvent::PtyOutput { pane_id: id, data } => {
                if *id == pane_id {
                    frame_step(data.as_slice())
                } else {
                    StreamStep::Wait
                }
            },
            SessionEvent::PaneClosed { pane_id: id } => {
                if *id == pane_id {
                    StreamStep::End
                } else {
                    StreamStep::Wait
                }
            },
            _ => StreamStep::Wait,
        },
        StreamInput::Lagged => StreamStep::Wait,
        StreamInput::Closed => StreamStep::End,
        StreamInput::ClientClosed => StreamStep::End,
        StreamInput::ClientBytes => StreamStep::Wait,
    }
}

/// What a subscriber to the output of a pane is sent first: what is kept of it,
/// in one frame.
pub fn replay_step(sm: &SessionManager, pane_id: PaneId) -> (s: StreamStep)
    ensures
        s@ == match log_of(sm@.logs, pane_id) {
            Some(log) => framed(log.ring),
            None => StreamStepModel::Wait,
        },
{
    let (bytes, _total) = sm.subscribe_with_snapshot(pane_id);
    frame_step(bytes.as_slice())
}

/// What is kept of a pane fits into one frame, as long as no more is kept than
/// that: the stream of its output never ends at the replay.
pub proof fn law_replay_fits_a_frame(log: LogModel)
    requires
        log.ok(),
        log.capacity <= MAX_FRAME_SIZE,
    ensures
        framed(log.ring) == if log.ring.len() == 0 {
            StreamStepModel::Wait
        } else {
            StreamStepModel::Send(frame(log.ring))
        },
{
}

/// The session after panes have put out chunks, one after the other, each with
/// the directory of the pane where that could be read.
pub open spec fn after_outputs(
    m: SessionModel,
    outs: Seq<(PaneId, Seq<u8>, Option<Seq<char>>)>,
) -> SessionModel
    decreases outs.len(),
{
    if outs.len() == 0 {
        m
    } else {
        with_output(
            after_outputs(m, outs.drop_last()),
            outs.last().0,
            outs.last().1,
            outs.last().2,
        )
    }
}

/// The chunks of one pane among those of all.
pub open spec fn chunks_of(
    outs: Seq<(PaneId, Seq<u8>, Option<Seq<char>>)>,
    pane: PaneId,
) -> Seq<Seq<u8>>
    decreases outs.len(),
{
    if outs.len() == 0 {
        Seq::empty()
    } else if outs.last().0 == pane {
        chunks_of(outs.drop_last(), pane).push(outs.last().1)
    } else {
        chunks_of(outs.drop_last(), pane)
    }
}

/// A subscriber to a pane misses nothing and gets nothing twice. Of what comes
/// after it was given the bytes kept of the pane, each chunk is announced once
/// and in order, the chunks of this pane are put into frames as they are and
/// no others are, and bytes kept and chunks together are what the pane's log
/// then holds, as far as it reaches back. The mark that came with the bytes kept
/// is no less than their length, and stays so.
pub proof fn law_replay_then_live(
    m: SessionModel,
    outs: Seq<(PaneId, Seq<u8>, Option<Seq<char>>)>,
    pane: PaneId,
)
    requires
        session_ok(m),
        log_of(m.logs, pane) is Some,
    ensures
        after_outputs(m, outs).events.len() == m.events.len() + outs.len(),
        after_outputs(m, outs).events.take(m.events.len() as int) == m.events,
        forall|i: int|
            0 <= i < outs.len() ==> output_step_for(
                pane,
                #[trigger] after_outputs(m, outs).events[m.events.len() + i],
            ) == if outs[i].0 == pane {
                framed(outs[i].1)
            } else {
                StreamStepModel::Wait
            },
        log_of(after_outputs(m, outs).logs, pane) matches Some(log) && log.ring == keep_last(
            log_of(m.logs, pane)->0.ring + joined(chunks_of(outs, pane)),
            log.capacity,
        ) && log.ring.len() <= log.total,
        log_of(m.logs, pane)->0.ring.len() <= log_of(m.logs, pane)->0.total,
{
    lemma_outputs_logged(m, outs, pane);
    lemma_outputs_announced(m, outs);
    lemma_first_is(log_ids(m.logs), pane);
    law_snapshot_then_live(log_of(m.logs, pane)->0, chunks_of(outs, pane));
}

proof fn lemma_outputs_announced(
    m: SessionModel,
    outs: Seq<(PaneId, Seq<u8>, Option<Seq<char>>)>,
)
    ensures
        after_outputs(m, outs).events.len() == m.events.len() + outs.len(),
        after_outputs(m, outs).events.take(m.events.len() as int) == m.events,
        forall|i: int|
            0 <= i < outs.len() ==> #[trigger] after_outputs(m, outs).events[m.events.len() + i]
                == (EventModel::PtyOutput { pane_id: outs[i].0, data: outs[i].1 }),
    decreases outs.len(),
{
    if outs.len() > 0 {
        lemma_outputs_announced(m, outs.drop_last());
        let before = after_outputs(m, outs.drop_last());
        let after = after_outputs(m, outs);
        assert forall|i: int| 0 <= i < outs.len() implies #[trigger] after.events[m.events.len()
            + i] == (EventModel::PtyOutput { pane_id: outs[i].0, data: outs[i].1 }) by {
            if i < outs.len() - 1 {
                assert(after.events[m.events.len() + i] == before.events[m.events.len() + i]);
                assert(outs.drop_last()[i] == outs[i]);
            }
        }
        assert(after.events.take(m.events.len() as int) =~= before.events.take(
            m.events.len() as int,
        ));
    } else {
        assert(m.events.take(m.events.len() as int) =~= m.events);
    }
}

proof fn lemma_outputs_logged(
    m: SessionModel,
    outs: Seq<(PaneId, Seq<u8>, Option<Seq<char>>)>,
    pane: PaneId,
)
    requires
        log_of(m.logs, pane) is Some,
    ensures
        log_ids(after_outputs(m, outs).logs) == log_ids(m.logs),
        log_of(after_outputs(m, outs).logs, pane) == Some(
            log_of(m.logs, pane)->0.appended_all(chunks_of(outs, pane)),
        ),
    decreases outs.len(),
{
    if outs.len() > 0 {
        lemma_outputs_logged(m, outs.drop_last(), pane);
        let before = after_outputs(m, outs.drop_last()).logs;
        let id = outs.last().0;
        let after = with_logged(before, id, outs.last().1);
        lemma_first_is(log_ids(before), id);
        lemma_first_is(log_ids(before), pane);
        assert(log_ids(after) =~= log_ids(before));
        let chunks = chunks_of(outs.drop_last(), pane);
        assert(chunks.push(outs.last().1).drop_last() =~= chunks);
    }
}

/// A notification of a method with parameters.
pub open spec fn notification(method: Seq<char>, params: Seq<(Seq<char>, JsonModel)>) -> JsonModel {
    JsonModel::Object(
        seq![
            ("jsonrpc"@, JsonModel::Text("2.0"@)),
            ("method"@, JsonModel::Text(method)),
            ("params"@, JsonModel::Object(params)),
        ],
    )
}

/// The JSON number of an index.
pub open spec fn index_json(i: usize) -> JsonModel {
    JsonModel::Unsigned(i as u64)
}

/// A colour as text, or null.
pub open spec fn color_json(c: Option<Seq<char>>) -> JsonModel {
    match c {
        Some(s) => JsonModel::Text(s),
        None => JsonModel::Null,
    }
}

/// The notification that subscribers to the layout get for an event. Output,
/// and the beginning and end of panes, are none of theirs.
pub open spec fn layout_notification_for(event: EventModel) -> Option<JsonModel> {
    match event {
        EventModel::TabCreated { workspace_idx, tab_id, pane_id } => Some(
            notification(
                "tab_created"@,
                seq![
                    ("workspace_idx"@, index_json(workspace_idx)),
                    ("tab_id"@, id_json(tab_id)),
                    ("pane_id"@, id_json(pane_id.0)),
                ],
            ),
        ),
        EventModel::TabClosed { workspace_idx, tab_id } => Some(
            notification(
                "tab_closed"@,
                seq![("workspace_idx"@, index_json(workspace_idx)), ("tab_id"@, id_json(tab_id))],
            ),
        ),
        EventModel::PaneSplit { tab_id, parent_pane_id, new_pane_id, direction } => Some(
            notification(
                "pane_split"@,
                seq![
                    ("tab_id"@, id_json(tab_id)),
                    ("parent_pane_id"@, id_json(parent_pane_id.0)),
                    ("new_pane_id"@, id_json(new_pane_id.0)),
                    ("direction"@, JsonModel::Text(direction)),
                ],
            ),
        ),
        EventModel::TabMoved { workspace_idx, tab_id, new_index } => Some(
            notification(
                "tab_moved"@,
                seq![
                    ("workspace_idx"@, index_json(workspace_idx)),
                    ("tab_id"@, id_json(tab_id)),
                    ("new_index"@, index_json(new_index)),
                ],
            ),
        ),
        EventModel::ActiveTabChanged { workspace_idx, tab_idx } => Some(
            notification(
                "active_tab_changed"@,
                seq![
                    ("workspace_idx"@, index_json(workspace_idx)),
                    ("tab_idx"@, index_json(tab_idx)),
                ],
            ),
        ),
        EventModel::ActiveWorkspaceChanged { workspace_idx } => Some(
            notification(
                "active_workspace_changed"@,
                seq![("workspace_idx"@, index_json(workspace_idx))],
            ),
        ),
        EventModel::WorkspaceCreated { workspace_idx, workspace_id, name } => Some(
            notification(
                "workspace_created"@,
                seq![
                    ("workspace_idx"@, index_json(workspace_idx)),
                    ("workspace_id"@, id_json(workspace_id)),
                    ("name"@, JsonModel::Text(name)),
                ],
            ),
        ),
        EventModel::WorkspaceRenamed { workspace_idx, workspace_id, name } => Some(
            notification(
                "workspace_renamed"@,
                seq![
                    ("workspace_idx"@, index_json(workspace_idx)),
                    ("workspace_id"@, id_json(workspace_id)),
                    ("name"@, JsonModel::Text(name)),
                ],
            ),
        ),
        EventModel::WorkspaceDeleted { workspace_idx, workspace_id } => Some(
            notification(
                "workspace_deleted"@,
                seq![
                    ("workspace_idx"@, index_json(workspace_idx)),
                    ("workspace_id"@, id_json(workspace_id)),
                ],
            ),
        ),
        EventModel::WorkspaceColorChanged { workspace_idx, workspace_id, color } => Some(
            notification(
                "workspace_color_changed"@,
                seq![
                    ("workspace_idx"@, index_json(workspace_idx)),
                    ("workspace_id"@, id_json(workspace_id)),
                    ("color"@, color_json(color)),
                ],
            ),
        ),
        _ => None,
    }
}

fn notify(method: &str, params: Json) -> (j: Json)
    requires
        params@ is Object,
    ensures
        j@ == notification(method@, params@->Object_0),
{
    object3("jsonrpc", text("2.0"), "method", text(method), "params", params)
}

fn index_value(i: usize) -> (j: Json)
    ensures
        j@ == index_json(i),
{
    Json::Unsigned(i as u64)
}

fn id_value(id: Uuid) -> (j: Json)
    ensures
        j@ == id_json(id),
{
    Json::Text(id.to_text())
}

/// The notification that subscribers to the layout get for an event.
pub fn layout_notification(event: &SessionEvent) -> (n: Option<Json>)
    ensures
        match n {
            Some(j) => layout_notification_for(event@) == Some(j@),
            None => layout_notification_for(event@) is None,
        },
{
    match event {
        SessionEvent::TabCreated { workspace_idx, tab_id, pane_id } => Some(
            notify(
                "tab_created",
                object3(
                    "workspace_idx",
                    index_value(*workspace_idx),
                    "tab_id",
                    id_value(*tab_id),
                    "pane_id",
                    id_value(pane_id.0),
                ),
            ),
        ),
        SessionEvent::TabClosed { workspace_idx, tab_id } => Some(
            notify(
                "tab_closed",
                object2(
                    "workspace_idx",
                    index_value(*workspace_idx),
                    "tab_id",
                    id_value(*tab_id),
                ),
            ),
        ),
        SessionEvent::PaneSplit { tab_id, parent_pane_id, new_pane_id, direction } => Some(
            notify(
                "pane_split",
                object4(
                    "tab_id",
                    id_value(*tab_id),
                    "parent_pane_id",
                    id_value(parent_pane_id.0),
                    "new_pane_id",
                    id_value(new_pane_id.0),
                    "direction",
                    text(direction.as_str()),
                ),
            ),
        ),
        SessionEvent::TabMoved { workspace_idx, tab_id, new_index } => Some(
            notify(
                "tab_moved",
                object3(
                    "workspace_idx",
                    index_value(*workspace_idx),
                    "tab_id",
                    id_value(*tab_id),
                    "new_index",
                    index_value(*new_index),
                ),
            ),
        ),
        SessionEvent::ActiveTabChanged { workspace_idx, tab_idx } => Some(
            notify(
                "active_tab_changed",
                object2(
                    "workspace_idx",
                    index_value(*workspace_idx),
                    "tab_idx",
                    index_value(*tab_idx),
                ),
            ),
        ),
        SessionEvent::ActiveWorkspaceChanged { workspace_idx } => Some(
            notify(
                "active_workspace_changed",
                object1("workspace_idx", index_value(*workspace_idx)),
            ),
        ),
        SessionEvent::WorkspaceCreated { workspace_idx, workspace_id, name } => Some(
            notify(
                "workspace_created",
                object3(
                    "workspace_idx",
                    index_value(*workspace_idx),
                    "workspace_id",
                    id_value(*workspace_id),
                    "name",
                    text(name.as_str()),
                ),
            ),
        ),
        SessionEvent::WorkspaceRenamed { workspace_idx, workspace_id, name } => Some(
            notify(
                "workspace_renamed",
                object3(
                    "workspace_idx",
                    index_value(*workspace_idx),
                    "workspace_id",
                    id_value(*workspace_id),
                    "name",
                    text(name.as_str()),
                ),
            ),
        ),
        SessionEvent::WorkspaceDeleted { workspace_idx, workspace_id } => Some(
            notify(
                "workspace_deleted",
                object2(
                    "workspace_idx",
                    index_value(*workspace_idx),
                    "workspace_id",
                    id_value(*workspace_id),
                ),
            ),
        ),
        SessionEvent::WorkspaceColorChanged { workspace_idx, workspace_id, color } => {
            let value = match color {
                Some(c) => text(c.as_str()),
                None => Json::Null,
            };
            Some(
                notify(
                    "workspace_color_changed",
                    object3(
                        "workspace_idx",
                        index_value(*workspace_idx),
                        "workspace_id",
                        id_value(*workspace_id),
                        "color",
                        value,
                    ),
                ),
            )
        },
        _ => None,
    }
}

/// What the stream of layout changes does next.
#[derive(Debug, PartialEq, Eq)]
pub enum LayoutStep {
    /// Send this notification as a line.
    Send(Json),
    /// Wait on.
    Wait,
    /// Close the connection.
    End,
}

/// Decides what the stream of layout changes does next. Anything from the
/// client ends it.
pub fn layout_step(input: &StreamInput) -> (s: LayoutStep)
    ensures
        match *input {
            StreamInput::Event(e) => match layout_notification_for(e@) {
                Some(n) => s matches LayoutStep::Send(j) && j@ == n,
                None => s is Wait,
            },
            StreamInput::Lagged => s is Wait,
            StreamInput::Closed => s is End,
            StreamInput::ClientClosed | StreamInput::ClientBytes => s is End,
        },
{
    match input {
        StreamInput::Event(event) => match layout_notification(event) {
            Some(j) => LayoutStep::Send(j),
            None => LayoutStep::Wait,
        },
        StreamInput::Lagged => LayoutStep::Wait,
        StreamInput::Closed => LayoutStep::End,
        StreamInput::ClientClosed | StreamInput::ClientBytes => LayoutStep::End,
    }
}

// ---------------------------------------------------------------------------
// The socket
// ---------------------------------------------------------------------------
/// The path of the socket: in the runtime directory of the user, else in the
/// directory for temporary files.
pub fn default_socket_path(runtime_dir: Option<String>) -> (path: String)
    ensures
        path@ == match runtime_dir {
            Some(d) => path_in(d@, "forgetty.sock"@),
            None => "/tmp/forgetty.sock"@,
        },
{
    match runtime_dir {
        Some(d) => join_path(d.as_str(), "forgetty.sock"),
        None => "/tmp/forgetty.sock".to_owned(),
    }
}

} // verus!

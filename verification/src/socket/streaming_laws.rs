//! What goes over a connection: lines, frames, and what subscribers are told.

use vstd::prelude::*;

use crate::ids::{uuid_text, PaneId, Uuid};
use crate::session::events::EventModel;
use crate::session::model::{registered, SessionModel};
use crate::socket::answers::{EffectModel, RequestModel};
use crate::socket::codec::base64_text_of;
use crate::socket::devices::{
    device_json, devices_needed, enable_pairing_answer, list_devices_response, pairing_info_model,
    revoke_answer, unavailable,
};
use crate::socket::framing::{first_frame, frame, padded, FrameError};
use crate::socket::json::JsonModel;
use crate::socket::methods::{method_named, Method};
use crate::socket::opening_laws::law_first_field_is_read;
use crate::socket::request_laws::gives_id;
use crate::socket::server::{
    framed, layout_notification_for, notification, output_step_for, step_for, trimmed,
    trimmed_start, StepModel, StreamStepModel,
};
use crate::sync::endpoint::{SyncEventModel, SyncModel};
use crate::sync::registry::{authorized, DeviceModel};
use crate::text::{is_white_space, trimmed_end};
use crate::ui::clipboard::law_trimmed_end;

verus! {

// ---------------------------------------------------------------------------
// Lines
// ---------------------------------------------------------------------------
/// A line loses white space at both ends, and nothing else.
pub proof fn law_line_loses_white_space_at_its_ends(s: Seq<char>)
    ensures
        exists|i: int, j: int|
            0 <= i <= j <= s.len() && trimmed(s) == #[trigger] s.subrange(i, j) && (forall|k: int|
                (0 <= k < i || j <= k < s.len()) ==> is_white_space(#[trigger] s[k])),
        trimmed(s).len() > 0 ==> !is_white_space(trimmed(s)[0]) && !is_white_space(
            trimmed(s).last(),
        ),
{
    law_trimmed_end(s);
    let t = trimmed_end(s);
    lemma_trimmed_start(t);
    let r = trimmed_start(t);
    let i = t.len() - r.len();
    let j = t.len() as int;
    assert(r =~= s.subrange(i, j)) by {
        assert(r =~= t.skip(i));
    }
    assert forall|k: int| (0 <= k < i || j <= k < s.len()) implies is_white_space(
        #[trigger] s[k],
    ) by {
        if k < i {
            assert(t[k] == s[k]);
        }
    }
    if r.len() > 0 {
        assert(r.last() == t.last());
    }
}

proof fn lemma_trimmed_start(s: Seq<char>)
    ensures
        trimmed_start(s).len() <= s.len(),
        trimmed_start(s) == s.skip(s.len() - trimmed_start(s).len()),
        trimmed_start(s).len() > 0 ==> !is_white_space(trimmed_start(s)[0]),
        forall|k: int|
            0 <= k < s.len() - trimmed_start(s).len() ==> is_white_space(#[trigger] s[k]),
    decreases s.len(),
{
    if s.len() > 0 && is_white_space(s[0]) {
        let rest = s.skip(1);
        lemma_trimmed_start(rest);
        let r = trimmed_start(s);
        assert(r =~= s.skip(s.len() - r.len()));
        assert forall|k: int| 0 <= k < s.len() - r.len() implies is_white_space(
            #[trigger] s[k],
        ) by {
            if k > 0 {
                assert(rest[k - 1] == s[k]);
            }
        }
    } else {
        assert(s.skip(0) =~= s);
    }
}

// ---------------------------------------------------------------------------
// Frames
// ---------------------------------------------------------------------------
/// A frame begins with the length of its payload in four bytes, the highest first, and
/// goes on with the payload.
pub proof fn law_frame_tells_its_length_first(payload: Seq<u8>)
    requires
        payload.len() <= 0xffff_ffff,
    ensures
        frame(payload).len() == payload.len() + 4,
        frame(payload).skip(4) == payload,
        frame(payload)[0] * 0x100_0000 + frame(payload)[1] * 0x1_0000 + frame(payload)[2] * 0x100
            + frame(payload)[3] == payload.len(),
{
    let n = payload.len();
    assert(frame(payload).skip(4) =~= payload);
    assert(n / 16777216 < 256);
    assert(frame(payload)[0] == n / 16777216);
    assert(frame(payload)[1] == n / 65536 % 256);
    assert(frame(payload)[2] == n / 256 % 256);
    assert(frame(payload)[3] == n % 256);
}

/// The payload that is read is what stands behind the length, as much of it as that
/// says. A length beyond four mebibytes is refused, and bytes that end too early are
/// waited for.
pub proof fn law_payload_is_what_the_length_says(src: Seq<u8>)
    requires
        src.len() >= 4,
    ensures
        ({
            let n = src[0] * 0x100_0000 + src[1] * 0x1_0000 + src[2] * 0x100 + src[3];
            match first_frame(src) {
                Ok(payload) => n <= 0x40_0000 && payload.len() == n && src.len() >= 4 + n
                    && payload == src.subrange(4, 4 + n),
                Err(FrameError::UnexpectedEof) => n <= 0x40_0000 && src.len() < 4 + n,
                Err(FrameError::InvalidData { len }) => n > 0x40_0000 && len == n,
                Err(FrameError::InvalidInput { .. }) => false,
            }
        }),
{
}

/// Bytes are sent in a frame unless there are none, or too many for one.
pub proof fn law_bytes_go_into_a_frame(data: Seq<u8>)
    ensures
        framed(data) is Wait <==> data.len() == 0,
        framed(data) is End <==> data.len() > 0x40_0000,
        framed(data) matches StreamStepModel::Send(bytes) ==> bytes == frame(data),
{
}

/// A subscriber to a pane is sent the output of that pane, and the stream ends as that
/// pane is closed; of all else nothing is sent.
pub proof fn law_subscriber_gets_its_pane(pane: PaneId, event: EventModel)
    ensures
        output_step_for(pane, event) is Send ==> event is PtyOutput && event->PtyOutput_pane_id
            == pane,
        event is PtyOutput && event->PtyOutput_pane_id == pane && 0 < event->data.len()
            <= 0x40_0000 ==> output_step_for(pane, event) == StreamStepModel::Send(
            frame(event->data),
        ),
        event is PtyOutput && event->PtyOutput_pane_id != pane ==> output_step_for(pane, event)
            is Wait,
        event is PaneClosed ==> (output_step_for(pane, event) is End <==> event->PaneClosed_pane_id
            == pane),
        !(event is PtyOutput) && !(event is PaneClosed) ==> output_step_for(pane, event) is Wait,
{
}

// ---------------------------------------------------------------------------
// Requests that end or change a connection
// ---------------------------------------------------------------------------
/// What becomes of the connection and the daemon: the output of a live pane is streamed
/// to who asks for it; ending without a save saves nothing; any other ending saves, and
/// only a clean one of a session that is not pinned goes to the trash; a client that
/// leaves ends nothing. Whether another is attached is told by the count of connections.
pub proof fn law_what_becomes_of_a_connection(
    m: SessionModel,
    q: RequestModel,
    connections: usize,
    pane: PaneId,
)
    ensures
        ({
            let step = step_for(m, q, connections);
            &&& step matches StepModel::End { ending, .. } ==> {
                &&& ending.exit <==> q.method != "disconnect"@
                &&& ending.save <==> q.method != "shutdown"@
                &&& ending.flush == ending.save
                &&& ending.trash ==> q.method == "shutdown_clean"@ && !m.pinned
                &&& q.method == "shutdown_clean"@ && !m.pinned ==> ending.trash
            }
            &&& step is End <==> q.method == "shutdown"@ || q.method == "shutdown_save"@ || q.method
                == "shutdown_clean"@ || q.method == "disconnect"@
            &&& step is StreamLayout <==> q.method == "subscribe_layout"@
            &&& step is Reply <==> q.method == "is_attached"@
            &&& step is Dispatch <==> !(step is End) && !(step is StreamLayout) && !(step is Reply)
                && q.method != "subscribe_output"@
            &&& q.method == "subscribe_output"@ && gives_id(q, "pane_id"@, pane.0) && registered(
                m.panes,
                pane,
            ) ==> step is StreamOutput && step->pane_id == pane
            &&& step is StreamOutput ==> registered(m.panes, step->pane_id) && gives_id(
                q,
                "pane_id"@,
                step->pane_id.0,
            )
            &&& step matches StepModel::Reply(r) ==> r.result is Some && r.result->0.bool_at(
                "attached"@,
            ) == Some(connections >= 2)
        }),
{
    reveal_strlit("shutdown");
    reveal_strlit("shutdown_save");
    reveal_strlit("shutdown_clean");
    reveal_strlit("disconnect");
    reveal_strlit("subscribe_layout");
    reveal_strlit("subscribe_output");
    reveal_strlit("is_attached");
    assert("shutdown"@.len() == 8 && "shutdown_save"@.len() == 13 && "shutdown_clean"@.len() == 14
        && "disconnect"@.len() == 10 && "subscribe_layout"@.len() == 16 && "subscribe_output"@.len()
        == 16 && "is_attached"@.len() == 11);
    assert("subscribe_layout"@[10] == 'l' && "subscribe_output"@[10] == 'o');
    if let StepModel::Reply(r) = step_for(m, q, connections) {
        law_first_field_is_read(r.result->0->Object_0, "attached"@, 0);
    }
}

// ---------------------------------------------------------------------------
// Changes of the layout
// ---------------------------------------------------------------------------
/// The parameters of a notification.
pub open spec fn params_of(n: JsonModel) -> JsonModel {
    n.get("params"@)->0
}

/// Whether a notification has an id under a key.
pub open spec fn tells_id(n: JsonModel, key: Seq<char>, id: Uuid) -> bool {
    params_of(n).text_at(key) == Some(uuid_text(id.value))
}

/// Whether a notification has a position under a key.
pub open spec fn tells_index(n: JsonModel, key: Seq<char>, i: usize) -> bool {
    params_of(n).unsigned_at(key) == Some(i as u64)
}

/// Whether a notification is one of a method.
pub open spec fn is_of(n: JsonModel, method: Seq<char>) -> bool {
    n.text_at("method"@) == Some(method) && n.text_at("jsonrpc"@) == Some("2.0"@) && n.get(
        "params"@,
    ) is Some
}

/// A subscriber to the layout is told every change of tabs, workspaces and splits with
/// all that belongs to it, and nothing of output or of panes that come and go.
#[verifier::rlimit(40)]
pub proof fn law_changes_of_the_layout_are_told(event: EventModel)
    ensures
        ({
            let n = layout_notification_for(event)->0;
            &&& event is PtyOutput || event is PaneCreated || event is PaneClosed
                ==> layout_notification_for(event) is None
            &&& event matches EventModel::TabCreated { workspace_idx, tab_id, pane_id } ==> {
                &&& layout_notification_for(event) is Some && is_of(n, "tab_created"@)
                &&& tells_index(n, "workspace_idx"@, workspace_idx)
                &&& tells_id(n, "tab_id"@, tab_id) && tells_id(n, "pane_id"@, pane_id.0)
            }
            &&& event matches EventModel::TabClosed { workspace_idx, tab_id } ==> {
                &&& layout_notification_for(event) is Some && is_of(n, "tab_closed"@)
                &&& tells_index(n, "workspace_idx"@, workspace_idx)
                &&& tells_id(n, "tab_id"@, tab_id)
            }
            &&& event matches EventModel::PaneSplit {
                tab_id,
                parent_pane_id,
                new_pane_id,
                direction,
            } ==> {
                &&& layout_notification_for(event) is Some && is_of(n, "pane_split"@)
                &&& tells_id(n, "tab_id"@, tab_id)
                &&& tells_id(n, "parent_pane_id"@, parent_pane_id.0)
                &&& tells_id(n, "new_pane_id"@, new_pane_id.0)
                &&& params_of(n).text_at("direction"@) == Some(direction)
            }
            &&& event matches EventModel::TabMoved { workspace_idx, tab_id, new_index } ==> {
                &&& layout_notification_for(event) is Some && is_of(n, "tab_moved"@)
                &&& tells_index(n, "workspace_idx"@, workspace_idx)
                &&& tells_id(n, "tab_id"@, tab_id)
                &&& tells_index(n, "new_index"@, new_index)
            }
            &&& event matches EventModel::ActiveTabChanged { workspace_idx, tab_idx } ==> {
                &&& layout_notification_for(event) is Some && is_of(n, "active_tab_changed"@)
                &&& tells_index(n, "workspace_idx"@, workspace_idx)
                &&& tells_index(n, "tab_idx"@, tab_idx)
            }
            &&& event matches EventModel::ActiveWorkspaceChanged { workspace_idx } ==> {
                &&& layout_notification_for(event) is Some && is_of(n, "active_workspace_changed"@)
                &&& tells_index(n, "workspace_idx"@, workspace_idx)
            }
            &&& event matches EventModel::WorkspaceCreated { workspace_idx, workspace_id, name }
                ==> {
                &&& layout_notification_for(event) is Some && is_of(n, "workspace_created"@)
                &&& tells_index(n, "workspace_idx"@, workspace_idx)
                &&& tells_id(n, "workspace_id"@, workspace_id)
                &&& params_of(n).text_at("name"@) == Some(name)
            }
            &&& event matches EventModel::WorkspaceRenamed { workspace_idx, workspace_id, name }
                ==> {
                &&& layout_notification_for(event) is Some && is_of(n, "workspace_renamed"@)
                &&& tells_index(n, "workspace_idx"@, workspace_idx)
                &&& tells_id(n, "workspace_id"@, workspace_id)
                &&& params_of(n).text_at("name"@) == Some(name)
            }
            &&& event matches EventModel::WorkspaceDeleted { workspace_idx, workspace_id } ==> {
                &&& layout_notification_for(event) is Some && is_of(n, "workspace_deleted"@)
                &&& tells_index(n, "workspace_idx"@, workspace_idx)
                &&& tells_id(n, "workspace_id"@, workspace_id)
            }
        }),
{
    let n = layout_notification_for(event)->0;
    if layout_notification_for(event) is Some {
        let fields = params_of(n)->Object_0;
        lemma_notification(n->Object_0[1].1->Text_0, n->Object_0[2].1->Object_0);
        lemma_keys();
        match event {
            EventModel::TabCreated { .. } => {
                law_first_field_is_read(fields, "workspace_idx"@, 0);
                law_first_field_is_read(fields, "tab_id"@, 1);
                law_first_field_is_read(fields, "pane_id"@, 2);
            },
            EventModel::TabClosed { .. } => {
                law_first_field_is_read(fields, "workspace_idx"@, 0);
                law_first_field_is_read(fields, "tab_id"@, 1);
            },
            EventModel::PaneSplit { .. } => {
                law_first_field_is_read(fields, "tab_id"@, 0);
                law_first_field_is_read(fields, "parent_pane_id"@, 1);
                law_first_field_is_read(fields, "new_pane_id"@, 2);
                law_first_field_is_read(fields, "direction"@, 3);
            },
            EventModel::TabMoved { .. } => {
                law_first_field_is_read(fields, "workspace_idx"@, 0);
                law_first_field_is_read(fields, "tab_id"@, 1);
                law_first_field_is_read(fields, "new_index"@, 2);
            },
            EventModel::ActiveTabChanged { .. } => {
                law_first_field_is_read(fields, "workspace_idx"@, 0);
                law_first_field_is_read(fields, "tab_idx"@, 1);
            },
            EventModel::ActiveWorkspaceChanged { .. } => {
                law_first_field_is_read(fields, "workspace_idx"@, 0);
            },
            EventModel::WorkspaceCreated { .. } => {
                law_first_field_is_read(fields, "workspace_idx"@, 0);
                law_first_field_is_read(fields, "workspace_id"@, 1);
                law_first_field_is_read(fields, "name"@, 2);
            },
            EventModel::WorkspaceRenamed { .. } => {
                law_first_field_is_read(fields, "workspace_idx"@, 0);
                law_first_field_is_read(fields, "workspace_id"@, 1);
                law_first_field_is_read(fields, "name"@, 2);
            },
            EventModel::WorkspaceDeleted { .. } => {
                law_first_field_is_read(fields, "workspace_idx"@, 0);
                law_first_field_is_read(fields, "workspace_id"@, 1);
            },
            _ => {},
        }
    }
}

proof fn lemma_notification(method: Seq<char>, params: Seq<(Seq<char>, JsonModel)>)
    ensures
        is_of(notification(method, params), method),
        params_of(notification(method, params)) == JsonModel::Object(params),
{
    let fields = notification(method, params)->Object_0;
    reveal_strlit("jsonrpc");
    reveal_strlit("method");
    reveal_strlit("params");
    assert("jsonrpc"@.len() == 7 && "method"@.len() == 6 && "params"@.len() == 6);
    assert("method"@[0] == 'm' && "params"@[0] == 'p');
    law_first_field_is_read(fields, "jsonrpc"@, 0);
    law_first_field_is_read(fields, "method"@, 1);
    law_first_field_is_read(fields, "params"@, 2);
}

proof fn lemma_keys()
    ensures
        "workspace_idx"@.len() == 13,
        "workspace_id"@.len() == 12,
        "tab_id"@.len() == 6,
        "pane_id"@.len() == 7,
        "tab_idx"@.len() == 7,
        "parent_pane_id"@.len() == 14,
        "new_pane_id"@.len() == 11,
        "direction"@.len() == 9,
        "new_index"@.len() == 9,
        "name"@.len() == 4,
{
    reveal_strlit("workspace_idx");
    reveal_strlit("workspace_id");
    reveal_strlit("tab_id");
    reveal_strlit("pane_id");
    reveal_strlit("tab_idx");
    reveal_strlit("parent_pane_id");
    reveal_strlit("new_pane_id");
    reveal_strlit("direction");
    reveal_strlit("new_index");
    reveal_strlit("name");
}

// ---------------------------------------------------------------------------
// Devices
// ---------------------------------------------------------------------------
/// Whether an object tells all of a device.
pub open spec fn tells_device(j: JsonModel, d: DeviceModel) -> bool {
    &&& j.text_at("device_id"@) == Some(d.device_id)
    &&& j.text_at("name"@) == Some(d.name)
    &&& j.text_at("paired_at"@) == Some(d.paired_at)
    &&& d.last_seen is Some ==> j.text_at("last_seen"@) == d.last_seen
    &&& d.last_seen is None ==> j.get("last_seen"@) == Some(JsonModel::Null)
}

/// The request for the devices is told all of them, in their order.
pub proof fn law_every_device_is_told(s: SyncModel, q: RequestModel)
    ensures
        ({
            let r = list_devices_response(s, q).result->0;
            &&& list_devices_response(s, q).result is Some
            &&& r.items_at("devices"@) is Some
            &&& r.items_at("devices"@)->0.len() == s.devices.len()
            &&& forall|i: int|
                0 <= i < s.devices.len() ==> tells_device(
                    r.items_at("devices"@)->0[i],
                    #[trigger] s.devices[i],
                )
        }),
{
    let r = list_devices_response(s, q).result->0;
    law_first_field_is_read(r->Object_0, "devices"@, 0);
    assert forall|i: int| 0 <= i < s.devices.len() implies tells_device(
        r.items_at("devices"@)->0[i],
        #[trigger] s.devices[i],
    ) by {
        let fields = device_json(s.devices[i])->Object_0;
        reveal_strlit("device_id");
        reveal_strlit("name");
        reveal_strlit("paired_at");
        reveal_strlit("last_seen");
        assert("device_id"@.len() == 9 && "name"@.len() == 4 && "paired_at"@.len() == 9
            && "last_seen"@.len() == 9);
        assert("device_id"@[0] == 'd' && "paired_at"@[0] == 'p' && "last_seen"@[0] == 'l');
        law_first_field_is_read(fields, "device_id"@, 0);
        law_first_field_is_read(fields, "name"@, 1);
        law_first_field_is_read(fields, "paired_at"@, 2);
        law_first_field_is_read(fields, "last_seen"@, 3);
    }
}

/// A device that is revoked is no longer allowed to connect, and every other one is as
/// before, whether storing the list went well or not; where it did, the revocation is
/// announced. The answer tells whether there was such a device. Only where there is one
/// is anything to be stored, and that is the list without it.
pub proof fn law_revoked_device_is_gone(
    s: SyncModel,
    q: RequestModel,
    stored: Result<(), Seq<char>>,
    id: Seq<char>,
    other: Seq<char>,
)
    requires
        method_named(q.method) == Method::RevokeDevice,
        q.params.text_at("device_id"@) == Some(id),
    ensures
        ({
            let (response, n) = revoke_answer(s, q, stored);
            let known = authorized(s.devices, id);
            &&& !authorized(n.devices, id)
            &&& other != id ==> authorized(n.devices, other) == authorized(s.devices, other)
            &&& n.node_id == s.node_id && n.allow_pairing == s.allow_pairing && n.timer == s.timer
            &&& response.error is None <==> stored is Ok || !known
            &&& response.error is None ==> response.result is Some
                && response.result->0.bool_at("ok"@) == Some(known)
            &&& known && stored is Ok ==> n.events == s.events.push(
                SyncEventModel::DeviceRevoked { device_id: id },
            )
            &&& !(known && stored is Ok) ==> n.events == s.events
            &&& devices_needed(Some(s), q) is StoreDevices <==> known
            &&& devices_needed(Some(s), q) matches EffectModel::StoreDevices { devices }
                ==> devices == n.devices
        }),
{
    crate::sync::registry::law_removed_is_not_authorized(s.devices, id, id);
    crate::sync::registry::law_removed_is_not_authorized(s.devices, id, other);
    let (response, n) = revoke_answer(s, q, stored);
    if response.error is None {
        law_first_field_is_read(response.result->0->Object_0, "ok"@, 0);
    }
}

/// The request to open pairing opens it for the seconds asked for, or two minutes, and
/// tells for how long.
pub proof fn law_pairing_is_opened(s: SyncModel, q: RequestModel)
    ensures
        ({
            let (response, n) = enable_pairing_answer(s, q);
            let secs = if q.params.unsigned_at("secs"@) is Some {
                q.params.unsigned_at("secs"@)->0
            } else {
                120
            };
            &&& n.allow_pairing
            &&& n.timer == Some(secs)
            &&& n.devices == s.devices && n.node_id == s.node_id && n.events == s.events
            &&& response.result is Some
            &&& response.result->0.unsigned_at("secs"@) == Some(secs)
            &&& response.result->0.bool_at("ok"@) == Some(true)
        }),
{
    let (response, n) = enable_pairing_answer(s, q);
    let fields = response.result->0->Object_0;
    reveal_strlit("ok");
    reveal_strlit("secs");
    assert("ok"@.len() == 2 && "secs"@.len() == 4);
    law_first_field_is_read(fields, "ok"@, 0);
    law_first_field_is_read(fields, "secs"@, 1);
}

// ---------------------------------------------------------------------------
// Fields and pairing
// ---------------------------------------------------------------------------
/// A field is read as what it is: a string as its text, a whole number from zero up as that
/// number, a truth value as such, an array as its items; anything else is not read as one.
pub proof fn law_fields_are_read_as_what_they_are(j: JsonModel, key: Seq<char>)
    ensures
        j.text_at(key) matches Some(s) ==> j.get(key) == Some(JsonModel::Text(s)),
        j.get(key) matches Some(JsonModel::Text(s)) ==> j.text_at(key) == Some(s),
        j.unsigned_at(key) matches Some(n) ==> j.get(key) == Some(JsonModel::Unsigned(n)),
        j.get(key) matches Some(JsonModel::Unsigned(n)) ==> j.unsigned_at(key) == Some(n),
        j.bool_at(key) matches Some(b) ==> j.get(key) == Some(JsonModel::Bool(b)),
        j.get(key) matches Some(JsonModel::Bool(b)) ==> j.bool_at(key) == Some(b),
        j.items_at(key) matches Some(items) ==> j.get(key) == Some(JsonModel::Array(items)),
        j.get(key) matches Some(JsonModel::Array(items)) ==> j.items_at(key) == Some(items),
        !(j is Object) ==> j.get(key) is None,
{
}

/// A ratio is read from any number: a fraction as the single nearest to it; a whole number
/// by the side of the span of ratios on which it lies.
pub proof fn law_ratio_is_read_from_a_number(j: JsonModel, key: Seq<char>)
    ensures
        j.get(key) matches Some(JsonModel::Float(f)) ==> j.ratio_at(key) == Some(f.single),
        j.get(key) matches Some(JsonModel::Single(r)) ==> j.ratio_at(key) == Some(r),
        j.get(key) matches Some(JsonModel::Unsigned(n)) ==> j.ratio_at(key) is Some && (
        j.ratio_at(key)->0.rank() == 0 <==> n == 0) && (n > 0 ==> j.ratio_at(key)->0.clamped().bits
            == 0x3f73_3333),
        j.get(key) is Some && j.get(key)->0 is Negative ==> j.ratio_at(key) is Some && j.ratio_at(
            key,
        )->0.rank() < 0,
        j.get(key) is None || j.get(key)->0 is Text || j.get(key)->0 is Bool || j.get(key)->0 is Null
            || j.get(key)->0 is Array || j.get(key)->0 is Object ==> j.ratio_at(key) is None,
{
}

/// The answer with the pairing code tells the id of the endpoint, the name of the machine
/// and the picture; without an endpoint the method counts as not known.
pub proof fn law_pairing_code_is_told(
    q: RequestModel,
    node_id: Seq<char>,
    machine: Seq<char>,
    png: Seq<u8>,
)
    ensures
        ({
            let r = pairing_info_model(q, node_id, machine, png).result->0;
            &&& pairing_info_model(q, node_id, machine, png).result is Some
            &&& r.text_at("node_id"@) == Some(node_id)
            &&& r.text_at("machine"@) == Some(machine)
            &&& r.text_at("qr_png_base64"@) == Some(base64_text_of(png))
        }),
        unavailable(q).error is Some,
        unavailable(q).error->0.code == -32601,
        unavailable(q).result is None,
        unavailable(q).id == q.id,
{
    let fields = pairing_info_model(q, node_id, machine, png).result->0->Object_0;
    reveal_strlit("node_id");
    reveal_strlit("machine");
    reveal_strlit("qr_png_base64");
    assert("node_id"@.len() == 7 && "machine"@.len() == 7 && "qr_png_base64"@.len() == 13);
    assert("node_id"@[0] == 'n' && "machine"@[0] == 'm');
    law_first_field_is_read(fields, "node_id"@, 0);
    law_first_field_is_read(fields, "machine"@, 1);
    law_first_field_is_read(fields, "qr_png_base64"@, 2);
}

/// What is read of a frame that is not all there is what came of it, and zeros behind.
pub proof fn law_frame_that_is_not_all_there(data: Seq<u8>, len: nat)
    ensures
        padded(data, len).len() == len,
        forall|i: int|
            0 <= i < len && i < data.len() ==> #[trigger] padded(data, len)[i] == data[i],
        forall|i: int| data.len() <= i < len ==> #[trigger] padded(data, len)[i] == 0,
{
}

} // verus!

//! The handlers of requests about other devices.

use vstd::prelude::*;

use crate::socket::answers::{is_sync_method, EffectModel, RequestModel};
use crate::socket::codec::{base64_encode, base64_text_of};
use crate::socket::handlers::done_model;
use crate::socket::json::{
    array, copy_optional, items_model, object1, object2, object3, object4, text, Json, JsonModel,
};
use crate::socket::methods::{method_named, method_of, Method};
use crate::socket::protocol::{
    error_model, success_model, Request, Response, ResponseModel, INTERNAL_ERROR, INVALID_PARAMS,
    METHOD_NOT_FOUND,
};
use crate::sync::endpoint::{SyncEvent, SyncEventModel, SyncModel, SyncState};
use crate::sync::qr::{
    host_name, machine_name, module_size_fits, payload_json, png_of, qr_pixels_of, qr_to_png,
    QrError, QrPayload, DEFAULT_RELAY,
};
use crate::sync::registry::{
    authorized, devices_without, entries_model, DeviceEntry, DeviceModel, DeviceRegistry,
};
use crate::text::join2;
use vstd::utf8::encode_utf8;

verus! {

/// A time as text, or null.
pub open spec fn moment_json(t: Option<Seq<char>>) -> JsonModel {
    match t {
        Some(t) => JsonModel::Text(t),
        None => JsonModel::Null,
    }
}

/// A device as `list_devices` shows it.
pub open spec fn device_json(d: DeviceModel) -> JsonModel {
    JsonModel::Object(
        seq![
            ("device_id"@, JsonModel::Text(d.device_id)),
            ("name"@, JsonModel::Text(d.name)),
            ("paired_at"@, JsonModel::Text(d.paired_at)),
            ("last_seen"@, moment_json(d.last_seen)),
        ],
    )
}

/// The refusal where there is no endpoint.
pub open spec fn unavailable(q: RequestModel) -> ResponseModel {
    error_model(
        q.id,
        METHOD_NOT_FOUND,
        "sync endpoint not available (daemon started without --allow-pairing?)"@,
    )
}

fn sync_unavailable(request: &Request) -> (r: Response)
    ensures
        r@ == unavailable(request@),
{
    Response::error(
        copy_optional(&request.id),
        METHOD_NOT_FOUND,
        "sync endpoint not available (daemon started without --allow-pairing?)".to_owned(),
    )
}

/// The devices that may connect.
pub open spec fn list_devices_response(s: SyncModel, q: RequestModel) -> ResponseModel {
    success_model(
        q.id,
        JsonModel::Object(
            seq![
                (
                    "devices"@,
                    JsonModel::Array(Seq::new(s.devices.len(), |i: int| device_json(s.devices[i]))),
                ),
            ],
        ),
    )
}

fn handle_list_devices(request: &Request, state: &SyncState) -> (r: Response)
    ensures
        r@ == list_devices_response(state@, request@),
{
    let entries = state.registry.list();
    let ghost devices = state@.devices;
    let mut out: Vec<Json> = Vec::new();
    let mut i: usize = 0;
    while i < entries.len()
        invariant
            i <= entries@.len(),
            devices == entries_model(entries@),
            out@.len() == i,
            forall|k: int| 0 <= k < i ==> (#[trigger] out@[k])@ == device_json(devices[k]),
        decreases entries@.len() - i,
    {
        assert(devices[i as int] == entries@[i as int]@);
        let d = &entries[i];
        let last_seen = match &d.last_seen {
            Some(t) => text(t.as_str()),
            None => Json::Null,
        };
        assert(last_seen@ == moment_json(devices[i as int].last_seen));
        let j = object4(
                "device_id",
                text(d.device_id.as_str()),
                "name",
                text(d.name.as_str()),
                "paired_at",
                text(d.paired_at.as_str()),
                "last_seen",
                last_seen,
            );
        out.push(j);
        i = i + 1;
    }
    assert(items_model(out@) =~= Seq::new(devices.len(), |k: int| device_json(devices[k])));
    Response::success(copy_optional(&request.id), object1("devices", array(out)))
}

/// The response to a revocation, and the endpoint after it. `stored` is how
/// storing the remaining devices went; it counts only where the device was
/// registered. The device is gone in any case, and its revocation is announced
/// where it was stored.
pub open spec fn revoke_answer(s: SyncModel, q: RequestModel, stored: Result<(), Seq<char>>) -> (
    ResponseModel,
    SyncModel,
) {
    match q.params.text_at("device_id"@) {
        None => (error_model(q.id, INVALID_PARAMS, "missing param: device_id"@), s),
        Some(id) => {
            let gone = SyncModel { devices: devices_without(s.devices, id), ..s };
            let found = authorized(s.devices, id);
            match stored {
                Err(words) if found => (
                    error_model(q.id, INTERNAL_ERROR, "failed to revoke device: "@ + words),
                    gone,
                ),
                _ => (
                    success_model(
                        q.id,
                        JsonModel::Object(seq![("ok"@, JsonModel::Bool(found))]),
                    ),
                    if found {
                        SyncModel {
                            events: s.events.push(
                                SyncEventModel::DeviceRevoked { device_id: id },
                            ),
                            ..gone
                        }
                    } else {
                        gone
                    },
                ),
            }
        },
    }
}

fn handle_revoke_device(request: &Request, state: &mut SyncState, stored: Result<(), String>) -> (r:
    Response)
    ensures
        revoke_answer(
            old(state)@,
            request@,
            done_model(stored),
        ) == (r@, final(state)@),
{
    let id = match request.params.text_at("device_id") {
        None => {
            return Response::error(
                copy_optional(&request.id),
                INVALID_PARAMS,
                "missing param: device_id".to_owned(),
            );
        },
        Some(id) => id,
    };
    let found = state.registry.remove(id);
    assert(state@.events =~= old(state)@.events);
    if found {
        match stored {
            Err(words) => {
                return Response::error(
                    copy_optional(&request.id),
                    INTERNAL_ERROR,
                    join2("failed to revoke device: ", words.as_str()),
                );
            },
            Ok(()) => {},
        }
        state.send(SyncEvent::DeviceRevoked { device_id: id.to_owned() });
    }
    Response::success(copy_optional(&request.id), object1("ok", Json::Bool(found)))
}

/// Seconds for which pairing is opened.
pub open spec fn pairing_secs(q: RequestModel) -> u64 {
    match q.params.unsigned_at("secs"@) {
        Some(n) => n,
        None => 120,
    }
}

/// The response to opening the pairing window, and the endpoint after it.
pub open spec fn enable_pairing_answer(s: SyncModel, q: RequestModel) -> (ResponseModel, SyncModel) {
    (
        success_model(
            q.id,
            JsonModel::Object(
                seq![
                    ("ok"@, JsonModel::Bool(true)),
                    ("secs"@, JsonModel::Unsigned(pairing_secs(q))),
                ],
            ),
        ),
        SyncModel { allow_pairing: true, timer: Some(pairing_secs(q)), ..s },
    )
}

fn handle_enable_pairing(request: &Request, state: &mut SyncState) -> (r: Response)
    ensures
        enable_pairing_answer(old(state)@, request@) == (r@, final(state)@),
{
    let secs: u64 = match request.params.unsigned_at("secs") {
        Some(n) => n,
        None => 120,
    };
    state.enable_pairing(secs);
    Response::success(
        copy_optional(&request.id),
        object2("ok", Json::Bool(true), "secs", Json::Unsigned(secs)),
    )
}

/// Most bytes of a picture whose base64 text is sure to fit into memory.
pub open spec fn picture_fits(png: Seq<u8>) -> bool {
    png.len() <= isize::MAX / 2
}

/// The response with the pairing code: the id of the endpoint, the name of the
/// machine, and the picture of the code.
pub open spec fn pairing_info_model(
    q: RequestModel,
    node_id: Seq<char>,
    machine: Seq<char>,
    png: Seq<u8>,
) -> ResponseModel {
    success_model(
        q.id,
        JsonModel::Object(
            seq![
                ("node_id"@, JsonModel::Text(node_id)),
                ("machine"@, JsonModel::Text(machine)),
                ("qr_png_base64"@, JsonModel::Text(base64_text_of(png))),
            ],
        ),
    )
}

/// The response with the pairing code.
pub fn pairing_info(request: &Request, node_id: &str, machine: &str, png: &Vec<u8>) -> (r: Response)
    requires
        picture_fits(png@),
    ensures
        r@ == pairing_info_model(request@, node_id@, machine@, png@),
{
    let code = base64_encode(png.as_slice());
    Response::success(
        copy_optional(&request.id),
        object3(
            "node_id",
            text(node_id),
            "machine",
            text(machine),
            "qr_png_base64",
            Json::Text(code),
        ),
    )
}

/// The response for the outcome of drawing the pairing code. A picture that is
/// too large to be encoded counts as one that could not be drawn.
pub fn pairing_info_response(
    request: &Request,
    node_id: &str,
    machine: &str,
    png: Result<Vec<u8>, QrError>,
) -> (r: Response)
    ensures
        match png {
            Ok(bytes) => r@ == if picture_fits(bytes@) {
                pairing_info_model(request@, node_id@, machine@, bytes@)
            } else {
                error_model(
                    request@.id,
                    INTERNAL_ERROR,
                    "QR PNG generation failed: "@ + "PNG encode error: picture too large"@,
                )
            },
            Err(QrError::Encode(words)) => r@ == error_model(
                request@.id,
                INTERNAL_ERROR,
                "QR PNG generation failed: "@ + ("QR encode error: "@ + words@),
            ),
            Err(QrError::Png(words)) => r@ == error_model(
                request@.id,
                INTERNAL_ERROR,
                "QR PNG generation failed: "@ + ("PNG encode error: "@ + words@),
            ),
        },
{
    let words = match png {
        Ok(bytes) => {
            if bytes.len() <= (isize::MAX / 2) as usize {
                return pairing_info(request, node_id, machine, &bytes);
            }
            "PNG encode error: picture too large".to_owned()
        },
        Err(QrError::Encode(words)) => join2("QR encode error: ", words.as_str()),
        Err(QrError::Png(words)) => join2("PNG encode error: ", words.as_str()),
    };
    Response::error(
        copy_optional(&request.id),
        INTERNAL_ERROR,
        join2("QR PNG generation failed: ", words.as_str()),
    )
}

/// The outcome of drawing the pairing code of an endpoint on a machine, with
/// eight pixels per module.
pub open spec fn code_picture(node_id: Seq<char>, machine: Seq<char>) -> Result<
    Seq<u8>,
    (bool, Seq<char>),
> {
    match qr_pixels_of(encode_utf8(payload_json(1, node_id, machine, DEFAULT_RELAY@)), 8) {
        Err(words) => Err((true, words)),
        Ok((w, h, p)) => match png_of(w, h, p) {
            Ok(bytes) => Ok(bytes),
            Err(words) => Err((false, words)),
        },
    }
}

/// The response to a request for the pairing code, on a machine whose name was
/// read twice.
pub open spec fn pairing_info_answer(
    q: RequestModel,
    node_id: Seq<char>,
    machine: Seq<char>,
    code_machine: Seq<char>,
) -> ResponseModel {
    match code_picture(node_id, code_machine) {
        Ok(png) => if picture_fits(png) {
            pairing_info_model(q, node_id, machine, png)
        } else {
            error_model(
                q.id,
                INTERNAL_ERROR,
                "QR PNG generation failed: "@ + "PNG encode error: picture too large"@,
            )
        },
        Err((encoding, words)) => error_model(
            q.id,
            INTERNAL_ERROR,
            "QR PNG generation failed: "@ + (if encoding {
                "QR encode error: "@
            } else {
                "PNG encode error: "@
            } + words),
        ),
    }
}

fn handle_get_pairing_info(request: &Request, state: &SyncState) -> (r: Response)
    ensures
        exists|machine: Seq<char>, code_machine: Seq<char>|
            r@ == #[trigger] pairing_info_answer(
                request@,
                state@.node_id,
                machine,
                code_machine,
            ),
{
    let machine = machine_name(host_name());
    let payload = QrPayload::new(state.node_id.clone());
    assert(module_size_fits(8)) by {
        assert(185 * 8 * (185 * 8) * 4 <= isize::MAX) by (nonlinear_arith)
            requires
                isize::MAX >= 0x7fff_ffff,
        ;
    }
    let png = qr_to_png(&payload, 8);
    let r = pairing_info_response(request, state.node_id.as_str(), machine.as_str(), png);
    assert(r@ == pairing_info_answer(request@, state@.node_id, machine@, payload.machine@));
    r
}

/// Whether a response and an endpoint after it are the answer to a request about
/// devices. Only the name of the machine in the pairing code is open.
pub open spec fn devices_answered(
    s: SyncModel,
    q: RequestModel,
    stored: Result<(), Seq<char>>,
    response: ResponseModel,
    after: SyncModel,
) -> bool {
    match method_named(q.method) {
        Method::ListDevices => response == list_devices_response(s, q) && after == s,
        Method::RevokeDevice => (response, after) == revoke_answer(s, q, stored),
        Method::EnablePairing => (response, after) == enable_pairing_answer(s, q),
        Method::GetPairingInfo => after == s && exists|
            machine: Seq<char>,
            code_machine: Seq<char>,
        |
            response == #[trigger] pairing_info_answer(q, s.node_id, machine, code_machine),
        _ => false,
    }
}

/// Answers a request about devices.
pub(crate) fn dispatch_devices(
    request: &Request,
    state: &mut SyncState,
    stored: Result<(), String>,
) -> (r: Response)
    requires
        is_sync_method(method_named(request@.method)),
    ensures
        devices_answered(
            old(state)@,
            request@,
            done_model(stored),
            r@,
            final(state)@,
        ),
{
    match method_of(request.method.as_str()) {
        Method::ListDevices => handle_list_devices(request, state),
        Method::RevokeDevice => handle_revoke_device(request, state, stored),
        Method::EnablePairing => handle_enable_pairing(request, state),
        _ => handle_get_pairing_info(request, state),
    }
}

/// Answers a request about devices where there is no endpoint.
pub(crate) fn dispatch_unavailable(request: &Request) -> (r: Response)
    ensures
        r@ == unavailable(request@),
{
    sync_unavailable(request)
}

/// What a request about devices needs done first: a revocation of a registered
/// device needs the remaining ones stored.
pub open spec fn devices_needed(s: Option<SyncModel>, q: RequestModel) -> EffectModel {
    match s {
        Some(s) => match method_named(q.method) {
            Method::RevokeDevice => match q.params.text_at("device_id"@) {
                Some(id) => if authorized(s.devices, id) {
                    EffectModel::StoreDevices { devices: devices_without(s.devices, id) }
                } else {
                    EffectModel::Nothing
                },
                None => EffectModel::Nothing,
            },
            _ => EffectModel::Nothing,
        },
        None => EffectModel::Nothing,
    }
}

/// The devices that are left after a revocation, where the device is registered.
pub(crate) fn remaining_devices(request: &Request, state: &SyncState) -> (left: Option<
    Vec<DeviceEntry>,
>)
    ensures
        match request@.params.text_at("device_id"@) {
            Some(id) => if authorized(state@.devices, id) {
                left matches Some(v) && entries_model(v@) == devices_without(state@.devices, id)
            } else {
                left is None
            },
            None => left is None,
        },
{
    let id = match request.params.text_at("device_id") {
        None => {
            return None;
        },
        Some(id) => id,
    };
    if !state.registry.is_authorized(id) {
        return None;
    }
    let entries = state.registry.list();
    let mut copies: Vec<DeviceEntry> = Vec::new();
    let mut i: usize = 0;
    while i < entries.len()
        invariant
            i <= entries@.len(),
            copies@.len() == i,
            forall|k: int| 0 <= k < i ==> (#[trigger] copies@[k])@ == entries@[k]@,
        decreases entries@.len() - i,
    {
        copies.push(entries[i].copy());
        i = i + 1;
    }
    assert(entries_model(copies@) =~= entries_model(entries@));
    let mut rest = DeviceRegistry::from_entries(copies);
    let _ = rest.remove(id);
    Some(rest.into_entries())
}

} // verus!

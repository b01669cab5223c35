//! Who may connect: known devices, new ones while pairing is open, and nobody
//! else.

use vstd::prelude::*;

use crate::sync::clock::{iso8601_text, is_stamp_of};
use crate::sync::endpoint::{SyncEvent, SyncEventModel, SyncModel, SyncState};
use crate::sync::qr::{host_name, json_string, json_string_of, machine_name};
use crate::sync::registry::{authorized, devices_seen, DeviceEntry, DeviceModel};
use crate::text::{decimal, decimal_text, join2, join3};

verus! {

/// What becomes of a connection.
#[derive(Clone, Copy, Debug, PartialEq, Eq, Structural)]
pub enum Admission {
    /// The device is known.
    Known,
    /// The device is new, and pairing is open.
    Pair,
    /// The device is new, and pairing is closed.
    Reject,
}

/// The rule of admission.
pub open spec fn admission(devices: Seq<DeviceModel>, id: Seq<char>, allow_pairing: bool) -> Admission {
    if authorized(devices, id) {
        Admission::Known
    } else if allow_pairing {
        Admission::Pair
    } else {
        Admission::Reject
    }
}

/// Decides on a connection.
pub fn decide(state: &SyncState, device_id: &str) -> (a: Admission)
    ensures
        a == admission(state@.devices, device_id@, state@.allow_pairing),
{
    if state.registry.is_authorized(device_id) {
        Admission::Known
    } else if state.allow_pairing {
        Admission::Pair
    } else {
        Admission::Reject
    }
}

/// How a connection is closed after admission.
#[derive(Debug, PartialEq, Eq)]
pub struct Close {
    pub code: u8,
    pub reason: String,
}

/// How a connection is closed: code 0 for a device that may connect, 1 for one
/// that may not.
pub fn close_after(a: Admission) -> (c: Close)
    ensures
        c.code == if a == Admission::Reject {
            1u8
        } else {
            0u8
        },
        c.reason@ == match a {
            Admission::Known => "connected-ok"@,
            Admission::Pair => "paired-ok"@,
            Admission::Reject => "not-authorized"@,
        },
{
    match a {
        Admission::Known => Close { code: 0, reason: "connected-ok".to_owned() },
        Admission::Pair => Close { code: 0, reason: "paired-ok".to_owned() },
        Admission::Reject => Close { code: 1, reason: "not-authorized".to_owned() },
    }
}

/// Takes in the connection of a known device at a given time: it was seen, and
/// its connection is announced.
pub fn admit_known(state: &mut SyncState, device_id: &str, now_secs: u64)
    ensures
        exists|now: Seq<char>|
            #[trigger] is_stamp_of(now, now_secs as nat) && final(state)@ == (SyncModel {
                devices: devices_seen(old(state)@.devices, device_id@, now, 0),
                events: old(state)@.events.push(
                    SyncEventModel::DeviceConnected { device_id: device_id@ },
                ),
                ..old(state)@
            }),
{
    let now = iso8601_text(now_secs);
    let ghost t = now@;
    state.registry.mark_seen(device_id, now);
    assert(state@.events =~= old(state)@.events);
    state.send(SyncEvent::DeviceConnected { device_id: device_id.to_owned() });
    assert(is_stamp_of(t, now_secs as nat));
}

/// The name of a paired device: the one that it gave, else one made of the time.
pub open spec fn device_name(given: Option<Seq<char>>, now_secs: nat) -> Seq<char> {
    match given {
        Some(n) => n,
        None => "device-"@ + decimal(now_secs),
    }
}

/// Pairs a new device at a given time: it is registered under the name it gave,
/// if it gave one, and its pairing is announced.
pub fn pair_device(state: &mut SyncState, device_id: &str, name: Option<String>, now_secs: u64)
    ensures
        exists|now: Seq<char>|
            #[trigger] is_stamp_of(now, now_secs as nat) && ({
                let entry = DeviceModel {
                    device_id: device_id@,
                    name: device_name(
                        match name {
                            Some(n) => Some(n@),
                            None => None,
                        },
                        now_secs as nat,
                    ),
                    paired_at: now,
                    last_seen: None,
                };
                final(state)@ == (SyncModel {
                    devices: old(state)@.devices.push(entry),
                    events: old(state)@.events.push(SyncEventModel::DevicePaired { entry }),
                    ..old(state)@
                })
            }),
        authorized(final(state)@.devices, device_id@),
{
    let label = match name {
        Some(n) => n,
        None => {
            let secs = decimal_text(now_secs);
            join2("device-", secs.as_str())
        },
    };
    let now = iso8601_text(now_secs);
    let ghost t = now@;
    let entry = DeviceEntry {
        device_id: device_id.to_owned(),
        name: label,
        paired_at: now,
        last_seen: None,
    };
    let copy = entry.copy();
    state.registry.add(entry);
    assert(state@.events =~= old(state)@.events);
    state.send(SyncEvent::DevicePaired { entry: copy });
    assert(is_stamp_of(t, now_secs as nat));
}

/// The line that a new device is greeted with.
pub open spec fn greeting_line(machine: Seq<char>) -> Seq<char> {
    "{\"machine\":"@ + json_string_of(machine) + ",\"status\":\"ok\",\"v\":1}\n"@
}

/// The line that a new device is greeted with.
pub fn greeting(machine: &str) -> (line: String)
    ensures
        line@ == greeting_line(machine@),
{
    let name = json_string(machine);
    join3("{\"machine\":", name.as_str(), ",\"status\":\"ok\",\"v\":1}\n")
}

/// The line that a new device is greeted with on this machine. Which name the
/// machine has is left open.
pub fn own_greeting() -> (line: String)
    ensures
        exists|machine: Seq<char>| line@ == #[trigger] greeting_line(machine),
{
    let machine = machine_name(host_name());
    let line = greeting(machine.as_str());
    assert(line@ == greeting_line(machine@));
    line
}

/// The line that a device is turned away with.
pub fn rejection() -> (line: String)
    ensures
        line@ == "{\"v\":1,\"error\":\"not_authorized\"}\n"@,
{
    "{\"v\":1,\"error\":\"not_authorized\"}\n".to_owned()
}

/// The text of a field in a line of JSON, as `serde_json` reads it: nothing
/// where the line is no JSON, is no object, or has no such text.
pub uninterp spec fn json_text_field_of(line: Seq<char>, key: Seq<char>) -> Option<Seq<char>>;

/// Calls `serde_json::from_str` on a line and takes a field of the value that
/// is a string. The contract only names the result.
#[verifier::external_body]
fn json_text_field(line: &str, key: &str) -> (field: Option<String>)
    ensures
        match field {
            Some(s) => json_text_field_of(line@, key@) == Some(s@),
            None => json_text_field_of(line@, key@) is None,
        },
{
    let value: serde_json::Value = serde_json::from_str(line).unwrap_or_default();
    value.get(key).and_then(|v| v.as_str()).map(|s| s.to_string())
}

/// The name that a device gave in its line of answer.
pub fn client_name(line: &str) -> (name: Option<String>)
    ensures
        match name {
            Some(s) => json_text_field_of(line@, "name"@) == Some(s@),
            None => json_text_field_of(line@, "name"@) is None,
        },
{
    json_text_field(line, "name")
}

/// Most bytes of a line of answer.
pub const MAX_LINE: usize = 4096;

/// A line of answer that is read byte by byte.
#[derive(Debug, PartialEq, Eq)]
pub struct LineReader {
    pub buf: Vec<u8>,
}

impl LineReader {
    /// Nothing read yet.
    pub fn new() -> (l: LineReader)
        ensures
            l.buf@.len() == 0,
    {
        LineReader { buf: Vec::new() }
    }

    /// Takes in a byte. Returns whether the line is complete: a line feed, which
    /// is not kept, or a byte more than the limit.
    pub fn push(&mut self, byte: u8) -> (complete: bool)
        ensures
            final(self).buf@ == if byte == 10 {
                old(self).buf@
            } else {
                old(self).buf@.push(byte)
            },
            complete == (byte == 10 || final(self).buf@.len() > MAX_LINE),
    {
        if byte == 10 {
            return true;
        }
        self.buf.push(byte);
        self.buf.len() > MAX_LINE
    }

    /// The line, where it is not empty and is text.
    pub fn finish(self) -> (line: Option<String>)
        ensures
            match line {
                Some(s) => self.buf@.len() > 0 && vstd::utf8::encode_utf8(s@) == self.buf@,
                None => self.buf@.len() == 0 || !vstd::utf8::valid_utf8(self.buf@),
            },
    {
        if self.buf.len() == 0 {
            None
        } else {
            utf8_text(self.buf)
        }
    }
}

/// Calls `String::from_utf8` of std. The contract claims that it gives the text
/// whose UTF-8 encoding the bytes are, and none exactly where they are no valid
/// encoding.
#[verifier::external_body]
fn utf8_text(bytes: Vec<u8>) -> (text: Option<String>)
    ensures
        match text {
            Some(s) => vstd::utf8::encode_utf8(s@) == bytes@,
            None => !vstd::utf8::valid_utf8(bytes@),
        },
{
    String::from_utf8(bytes).ok()
}

/// A device that is not registered connects only while pairing is open, and one
/// that paired connects from then on.
pub proof fn law_admission(before: Seq<DeviceModel>, entry: DeviceModel, allow: bool)
    ensures
        admission(before, entry.device_id, allow) == Admission::Reject <==> !authorized(
            before,
            entry.device_id,
        ) && !allow,
        admission(before.push(entry), entry.device_id, allow) == Admission::Known,
{
    assert(before.push(entry)[before.len() as int].device_id == entry.device_id);
}

} // verus!

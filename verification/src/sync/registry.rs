//! The devices that are allowed to connect.

use vstd::prelude::*;

use crate::sync::clock::{is_stamp_of, iso8601_now};
use crate::sync::identity::{data_path, local_file, optional_dir};
use crate::text::{join2, same_text};

verus! {

/// A device that is allowed to connect.
#[derive(Clone, Debug, PartialEq, Eq)]
pub struct DeviceEntry {
    /// Id of its endpoint.
    pub device_id: String,
    /// Label for people.
    pub name: String,
    /// When it was paired, as ISO 8601 text.
    pub paired_at: String,
    /// When it last connected after pairing, as ISO 8601 text.
    pub last_seen: Option<String>,
}

/// Why the list of devices could not be read or written, in words.
#[derive(Debug, PartialEq, Eq)]
pub enum RegistryError {
    /// The file could not be read or written.
    Io(String),
    /// The file holds no list of devices.
    Json(String),
}

impl RegistryError {
    /// The error in words.
    pub fn message(&self) -> (s: String)
        ensures
            s@ == match *self {
                RegistryError::Io(e) => "I/O error reading/writing registry: "@ + e@,
                RegistryError::Json(e) => "JSON parse error in registry: "@ + e@,
            },
    {
        match self {
            RegistryError::Io(e) => join2("I/O error reading/writing registry: ", e.as_str()),
            RegistryError::Json(e) => join2("JSON parse error in registry: ", e.as_str()),
        }
    }
}

/// The devices that are allowed to connect, in the order of their pairing.
#[derive(Debug, PartialEq, Eq)]
pub struct DeviceRegistry {
    devices: Vec<DeviceEntry>,
}

/// A device as a mathematical value.
pub ghost struct DeviceModel {
    pub device_id: Seq<char>,
    pub name: Seq<char>,
    pub paired_at: Seq<char>,
    pub last_seen: Option<Seq<char>>,
}

impl View for DeviceEntry {
    type V = DeviceModel;

    open spec fn view(&self) -> DeviceModel {
        DeviceModel {
            device_id: self.device_id@,
            name: self.name@,
            paired_at: self.paired_at@,
            last_seen: match self.last_seen {
                Some(t) => Some(t@),
                None => None,
            },
        }
    }
}

/// What a list of entries holds.
pub open spec fn entries_model(entries: Seq<DeviceEntry>) -> Seq<DeviceModel> {
    Seq::new(entries.len(), |i: int| entries[i]@)
}

impl View for DeviceRegistry {
    type V = Seq<DeviceModel>;

    closed spec fn view(&self) -> Seq<DeviceModel> {
        entries_model(self.devices@)
    }
}

/// Whether a device is allowed to connect.
pub open spec fn authorized(devices: Seq<DeviceModel>, id: Seq<char>) -> bool {
    exists|i: int| 0 <= i < devices.len() && (#[trigger] devices[i]).device_id == id
}

/// The devices without those of an id.
pub open spec fn devices_without(devices: Seq<DeviceModel>, id: Seq<char>) -> Seq<DeviceModel>
    decreases devices.len(),
{
    if devices.len() == 0 {
        devices
    } else if devices.last().device_id == id {
        devices_without(devices.drop_last(), id)
    } else {
        devices_without(devices.drop_last(), id).push(devices.last())
    }
}

/// The devices in which the first of an id was last seen at a given time.
pub open spec fn devices_seen(devices: Seq<DeviceModel>, id: Seq<char>, now: Seq<char>, from: int) -> Seq<
    DeviceModel,
>
    decreases devices.len() - from,
{
    if from < 0 || from >= devices.len() {
        devices
    } else if devices[from].device_id == id {
        devices.update(from, DeviceModel { last_seen: Some(now), ..devices[from] })
    } else {
        devices_seen(devices, id, now, from + 1)
    }
}

/// After removing an id it is allowed no more, and every other id is as it was.
pub proof fn law_removed_is_not_authorized(devices: Seq<DeviceModel>, id: Seq<char>, other: Seq<char>)
    ensures
        authorized(devices_without(devices, id), other) <==> authorized(devices, other) && other
            != id,
        devices_without(devices, id).len() <= devices.len(),
        devices_without(devices, id).len() < devices.len() <==> authorized(devices, id),
    decreases devices.len(),
{
    if devices.len() > 0 {
        let before = devices.drop_last();
        law_removed_is_not_authorized(before, id, other);
        let rest = devices_without(devices, id);
        let r = devices_without(before, id);
        if authorized(before, other) {
            let i = choose|i: int| 0 <= i < before.len() && before[i].device_id == other;
            assert(devices[i].device_id == other);
        }
        if authorized(before, id) {
            let i = choose|i: int| 0 <= i < before.len() && before[i].device_id == id;
            assert(devices[i].device_id == id);
        }
        if authorized(r, other) {
            let i = choose|i: int| 0 <= i < r.len() && r[i].device_id == other;
            assert(rest[i].device_id == other);
        }
        if authorized(devices, other) && !authorized(before, other) {
            let i = choose|i: int| 0 <= i < devices.len() && devices[i].device_id == other;
            if i < before.len() {
                assert(before[i].device_id == other);
            }
            assert(devices.last().device_id == other);
            if other != id {
                assert(rest[rest.len() - 1].device_id == other);
            }
        }
        if authorized(rest, other) && !authorized(r, other) {
            let i = choose|i: int| 0 <= i < rest.len() && rest[i].device_id == other;
            if i < r.len() {
                assert(r[i].device_id == other);
            }
            assert(devices[devices.len() - 1].device_id == other);
        }
        if authorized(devices, id) && !authorized(before, id) {
            let i = choose|i: int| 0 <= i < devices.len() && devices[i].device_id == id;
            if i < before.len() {
                assert(before[i].device_id == id);
            }
        }
        if devices.last().device_id == id {
            assert(devices[devices.len() - 1].device_id == id);
        }
    }
}

/// Marking a device as seen changes nothing of who is allowed to connect.
pub proof fn law_seen_keeps_authorization(
    devices: Seq<DeviceModel>,
    id: Seq<char>,
    now: Seq<char>,
    from: int,
    other: Seq<char>,
)
    ensures
        authorized(devices_seen(devices, id, now, from), other) == authorized(devices, other),
    decreases devices.len() - from,
{
    let after = devices_seen(devices, id, now, from);
    if 0 <= from < devices.len() {
        if devices[from].device_id == id {
            if authorized(devices, other) {
                let i = choose|i: int| 0 <= i < devices.len() && devices[i].device_id == other;
                assert(after[i].device_id == other);
            }
            if authorized(after, other) {
                let i = choose|i: int| 0 <= i < after.len() && after[i].device_id == other;
                assert(devices[i].device_id == other);
            }
        } else {
            law_seen_keeps_authorization(devices, id, now, from + 1, other);
        }
    }
}

/// What is loaded is what was stored, in the same order: where the entries that
/// are read from the file hold what those of a registry held when it was stored,
/// the registry that is loaded has the same devices.
pub proof fn law_loaded_is_what_was_stored(
    registry: DeviceRegistry,
    stored: Vec<DeviceEntry>,
    read: Vec<DeviceEntry>,
    loaded: Result<DeviceRegistry, RegistryError>,
)
    requires
        call_ensures(DeviceRegistry::into_entries, (registry,), stored),
        entries_model(read@) == entries_model(stored@),
        call_ensures(DeviceRegistry::load, (Some(Ok(read)),), loaded),
    ensures
        loaded matches Ok(r) && r@ == registry@,
{
}

impl DeviceEntry {
    /// A copy of the entry.
    pub fn copy(&self) -> (e: DeviceEntry)
        ensures
            e@ == self@,
    {
        let last_seen = match &self.last_seen {
            Some(t) => Some(t.clone()),
            None => None,
        };
        DeviceEntry {
            device_id: self.device_id.clone(),
            name: self.name.clone(),
            paired_at: self.paired_at.clone(),
            last_seen,
        }
    }
}

impl DeviceRegistry {
    /// The registry with these devices.
    pub fn from_entries(devices: Vec<DeviceEntry>) -> (r: DeviceRegistry)
        ensures
            r@ == entries_model(devices@),
    {
        DeviceRegistry { devices }
    }

    /// The registry that was stored. `stored` is nothing where there is no file,
    /// and else what was read from it, or why that failed.
    pub fn load(stored: Option<Result<Vec<DeviceEntry>, RegistryError>>) -> (r: Result<
        DeviceRegistry,
        RegistryError,
    >)
        ensures
            match stored {
                None => r matches Ok(registry) && registry@ == Seq::<DeviceModel>::empty(),
                Some(Ok(devices)) => r matches Ok(registry) && registry@ == entries_model(devices@),
                Some(Err(e)) => r == Err::<DeviceRegistry, RegistryError>(e),
            },
    {
        match stored {
            None => {
                let registry = DeviceRegistry::from_entries(Vec::new());
                assert(registry@ =~= Seq::empty());
                Ok(registry)
            },
            Some(Ok(devices)) => Ok(DeviceRegistry::from_entries(devices)),
            Some(Err(e)) => Err(e),
        }
    }

    /// Whether a device is allowed to connect.
    pub fn is_authorized(&self, device_id: &str) -> (b: bool)
        ensures
            b == authorized(self@, device_id@),
    {
        let mut i: usize = 0;
        while i < self.devices.len()
            invariant
                i <= self.devices@.len(),
                forall|j: int| 0 <= j < i ==> (#[trigger] self@[j]).device_id != device_id@,
            decreases self.devices@.len() - i,
        {
            assert(self@[i as int] == self.devices@[i as int]@);
            if same_text(self.devices[i].device_id.as_str(), device_id) {
                return true;
            }
            i = i + 1;
        }
        false
    }

    /// Adds a device. The registry is to be stored after that.
    pub fn add(&mut self, entry: DeviceEntry)
        ensures
            final(self)@ == old(self)@.push(entry@),
            authorized(final(self)@, entry.device_id@),
    {
        self.devices.push(entry);
        assert(self@ =~= old(self)@.push(entry@));
        assert(self@[self@.len() - 1].device_id == entry.device_id@);
    }

    /// Removes all entries of a device. Returns whether there was one; the
    /// registry is to be stored then.
    pub fn remove(&mut self, device_id: &str) -> (removed: bool)
        ensures
            final(self)@ == devices_without(old(self)@, device_id@),
            removed == authorized(old(self)@, device_id@),
            !authorized(final(self)@, device_id@),
    {
        let ghost before = self@;
        let mut kept: Vec<DeviceEntry> = Vec::new();
        let mut i: usize = 0;
        let mut removed = false;
        while i < self.devices.len()
            invariant
                i <= self.devices@.len(),
                before == self@,
                entries_model(kept@) == devices_without(before.take(i as int), device_id@),
                removed <==> exists|j: int| 0 <= j < i && (#[trigger] before[j]).device_id
                    == device_id@,
            decreases self.devices@.len() - i,
        {
            assert(before[i as int] == self.devices@[i as int]@);
            assert(before.take(i as int + 1).drop_last() =~= before.take(i as int));
            let ghost so_far = entries_model(kept@);
            if same_text(self.devices[i].device_id.as_str(), device_id) {
                removed = true;
            } else {
                let e = self.devices[i].copy();
                let ghost m = e@;
                kept.push(e);
                assert(entries_model(kept@) =~= so_far.push(m));
            }
            i = i + 1;
        }
        assert(before.take(before.len() as int) =~= before);
        self.devices = kept;
        proof {
            law_removed_is_not_authorized(before, device_id@, device_id@);
        }
        removed
    }

    /// All entries.
    pub fn list(&self) -> (entries: &[DeviceEntry])
        ensures
            entries_model(entries@) == self@,
    {
        self.devices.as_slice()
    }

    /// The entries, for storing.
    pub fn into_entries(self) -> (entries: Vec<DeviceEntry>)
        ensures
            entries_model(entries@) == self@,
    {
        self.devices
    }

    /// Notes a time as the last at which a device was seen, in its first entry.
    pub fn mark_seen(&mut self, device_id: &str, now: String)
        ensures
            final(self)@ == devices_seen(old(self)@, device_id@, now@, 0),
    {
        let ghost before = self@;
        let mut i: usize = 0;
        while i < self.devices.len()
            invariant
                i <= self.devices@.len(),
                before == self@,
                before == old(self)@,
                devices_seen(before, device_id@, now@, 0) == devices_seen(
                    before,
                    device_id@,
                    now@,
                    i as int,
                ),
            decreases self.devices@.len() - i,
        {
            assert(before[i as int] == self.devices@[i as int]@);
            if same_text(self.devices[i].device_id.as_str(), device_id) {
                let ghost t = now@;
                self.devices[i].last_seen = Some(now);
                assert(self@ =~= before.update(
                    i as int,
                    DeviceModel { last_seen: Some(t), ..before[i as int] },
                ));
                return;
            }
            i = i + 1;
        }
    }

    /// Notes the current time as the last at which a device was seen. The
    /// registry is to be stored after that.
    pub fn update_last_seen(&mut self, device_id: &str)
        ensures
            exists|now: Seq<char>, secs: u64|
                is_stamp_of(now, secs as nat) && final(self)@ == #[trigger] devices_seen(
                    old(self)@,
                    device_id@,
                    now,
                    0,
                ) && #[trigger] is_stamp_of(now, secs as nat),
    {
        let now = iso8601_now();
        let ghost t = now@;
        self.mark_seen(device_id, now);
        proof {
            let secs = choose|secs: u64| #[trigger] is_stamp_of(t, secs as nat);
            assert(is_stamp_of(t, secs as nat));
            assert(self@ == devices_seen(old(self)@, device_id@, t, 0));
        }
    }
}

/// The path of the list of devices, given the user's directory for local data.
pub fn registry_path(data_dir: Option<String>) -> (path: String)
    ensures
        path@ == data_path(optional_dir(data_dir), "authorized_devices.json"@),
{
    local_file(data_dir, "authorized_devices.json")
}

} // verus!

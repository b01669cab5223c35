//! The endpoint that other devices connect to: its protocols, its pairing
//! window and its events.

use vstd::prelude::*;
use vstd::utf8::encode_utf8;

use crate::seqs::{lemma_first_at, lemma_first_none};
use crate::sync::registry::{DeviceEntry, DeviceModel, DeviceRegistry};
use crate::text::{join2, same_bytes};

verus! {

/// The protocol by which devices pair.
pub const FORGETTY_PAIRING_ALPN: &'static str = "forgetty/pair/1";

/// What the endpoint tells its subscribers.
#[derive(Clone, Debug, PartialEq, Eq)]
pub enum SyncEvent {
    /// A device has paired.
    DevicePaired { entry: DeviceEntry },
    /// A device was revoked.
    DeviceRevoked { device_id: String },
    /// A known device has connected.
    DeviceConnected { device_id: String },
    /// The connection of a device has ended.
    DeviceDisconnected { device_id: String },
}

/// Why there is no endpoint, in words.
#[derive(Debug, PartialEq, Eq)]
pub enum SyncError {
    Bind(String),
    Registry(String),
}

impl SyncError {
    /// The words of the error.
    pub fn message(&self) -> (text: String)
        ensures
            text@ == match *self {
                SyncError::Bind(words) => "Failed to bind iroh endpoint: "@ + words@,
                SyncError::Registry(words) => "Registry error: "@ + words@,
            },
    {
        match self {
            SyncError::Bind(words) => join2(
                "Failed to bind iroh endpoint: ",
                words.as_str(),
            ),
            SyncError::Registry(words) => join2("Registry error: ", words.as_str()),
        }
    }
}

/// An event as a mathematical value.
pub ghost enum SyncEventModel {
    DevicePaired { entry: DeviceModel },
    DeviceRevoked { device_id: Seq<char> },
    DeviceConnected { device_id: Seq<char> },
    DeviceDisconnected { device_id: Seq<char> },
}

impl View for SyncEvent {
    type V = SyncEventModel;

    open spec fn view(&self) -> SyncEventModel {
        match *self {
            SyncEvent::DevicePaired { entry } => SyncEventModel::DevicePaired { entry: entry@ },
            SyncEvent::DeviceRevoked { device_id } => SyncEventModel::DeviceRevoked {
                device_id: device_id@,
            },
            SyncEvent::DeviceConnected { device_id } => SyncEventModel::DeviceConnected {
                device_id: device_id@,
            },
            SyncEvent::DeviceDisconnected { device_id } => SyncEventModel::DeviceDisconnected {
                device_id: device_id@,
            },
        }
    }
}

/// The state of the endpoint.
#[derive(Debug, PartialEq, Eq)]
pub struct SyncState {
    /// The devices that are allowed to connect.
    pub registry: DeviceRegistry,
    /// The id of the endpoint.
    pub node_id: String,
    /// Whether unknown devices may pair.
    pub allow_pairing: bool,
    /// Seconds after which the caller is to close the pairing window.
    pub timer: Option<u64>,
    /// Events that wait for subscribers.
    pub events: Vec<SyncEvent>,
}

/// The same as a mathematical value.
pub ghost struct SyncModel {
    pub devices: Seq<DeviceModel>,
    pub node_id: Seq<char>,
    pub allow_pairing: bool,
    pub timer: Option<u64>,
    pub events: Seq<SyncEventModel>,
}

impl View for SyncState {
    type V = SyncModel;

    open spec fn view(&self) -> SyncModel {
        SyncModel {
            devices: self.registry@,
            node_id: self.node_id@,
            allow_pairing: self.allow_pairing,
            timer: self.timer,
            events: Seq::new(self.events@.len(), |i: int| self.events@[i]@),
        }
    }
}

impl SyncState {
    /// The endpoint with an id and the devices that were stored.
    pub fn new(node_id: String, registry: DeviceRegistry, allow_pairing: bool) -> (s: SyncState)
        ensures
            s@ == (SyncModel {
                devices: registry@,
                node_id: node_id@,
                allow_pairing,
                timer: None,
                events: Seq::empty(),
            }),
    {
        let s = SyncState { registry, node_id, allow_pairing, timer: None, events: Vec::new() };
        assert(s@.events =~= Seq::empty());
        s
    }

    /// Queues an event.
    pub fn send(&mut self, event: SyncEvent)
        ensures
            final(self)@ == (SyncModel { events: old(self)@.events.push(event@), ..old(self)@ }),
    {
        self.events.push(event);
        assert(self@.events =~= old(self)@.events.push(event@));
    }

    /// Hands out the queued events.
    pub fn take_events(&mut self) -> (events: Vec<SyncEvent>)
        ensures
            Seq::new(events@.len(), |i: int| events@[i]@) == old(self)@.events,
            final(self)@ == (SyncModel { events: Seq::empty(), ..old(self)@ }),
    {
        let mut events: Vec<SyncEvent> = Vec::new();
        std::mem::swap(&mut events, &mut self.events);
        assert(Seq::new(events@.len(), |i: int| events@[i]@) =~= old(self)@.events);
        assert(self@.events =~= Seq::empty());
        events
    }

    /// Opens the pairing window for some seconds.
    pub fn enable_pairing(&mut self, secs: u64)
        ensures
            final(self)@ == (SyncModel { allow_pairing: true, timer: Some(secs), ..old(self)@ }),
    {
        self.allow_pairing = true;
        self.timer = Some(secs);
        assert(self@.events =~= old(self)@.events);
    }

    /// Takes the time after which the pairing window is to be closed, where one
    /// was opened since.
    pub fn take_timer(&mut self) -> (secs: Option<u64>)
        ensures
            secs == old(self)@.timer,
            final(self)@ == (SyncModel { timer: None, ..old(self)@ }),
    {
        let secs = self.timer;
        self.timer = None;
        assert(self@.events =~= old(self)@.events);
        secs
    }

    /// Closes the pairing window.
    pub fn pairing_window_over(&mut self)
        ensures
            final(self)@ == (SyncModel { allow_pairing: false, ..old(self)@ }),
    {
        self.allow_pairing = false;
        assert(self@.events =~= old(self)@.events);
    }
}

/// Which handler a connection goes to.
#[derive(Clone, Copy, Debug, PartialEq, Eq, Structural)]
pub enum Route {
    Pairing,
    /// A registered handler, by its position.
    Handler(usize),
    /// None: the connection is closed with code 1 and `unknown-alpn`.
    Unknown,
}

/// The protocols that a connection may speak beside pairing.
#[derive(Debug, PartialEq, Eq)]
pub struct AlpnTable {
    pub names: Vec<Vec<u8>>,
}

/// What a list of names holds.
pub open spec fn names_model(names: Seq<Vec<u8>>) -> Seq<Seq<u8>> {
    Seq::new(names.len(), |i: int| names[i]@)
}

impl View for AlpnTable {
    type V = Seq<Seq<u8>>;

    open spec fn view(&self) -> Seq<Seq<u8>> {
        names_model(self.names@)
    }
}

/// Where a connection with a protocol goes: pairing first, then the registered
/// handlers.
pub open spec fn route_of(names: Seq<Seq<u8>>, alpn: Seq<u8>) -> Route {
    if alpn == encode_utf8(FORGETTY_PAIRING_ALPN@) {
        Route::Pairing
    } else {
        match names.index_of_first(alpn) {
            Some(i) => Route::Handler(i as usize),
            None => Route::Unknown,
        }
    }
}

impl AlpnTable {
    /// No protocol beside pairing.
    pub fn new() -> (t: AlpnTable)
        ensures
            t@ == Seq::<Seq<u8>>::empty(),
    {
        let t = AlpnTable { names: Vec::new() };
        assert(t@ =~= Seq::empty());
        t
    }

    fn position(&self, alpn: &[u8]) -> (pos: Option<usize>)
        ensures
            match pos {
                Some(i) => self@.index_of_first(alpn@) == Some(i as int) && i < self@.len(),
                None => self@.index_of_first(alpn@) is None && !self@.contains(alpn@),
            },
    {
        let mut i: usize = 0;
        while i < self.names.len()
            invariant
                i <= self.names@.len(),
                forall|j: int| 0 <= j < i ==> self@[j] != alpn@,
            decreases self.names@.len() - i,
        {
            assert(self@[i as int] == self.names@[i as int]@);
            if same_bytes(self.names[i].as_slice(), alpn) {
                proof {
                    lemma_first_at(self@, alpn@, i as int);
                }
                return Some(i);
            }
            i = i + 1;
        }
        proof {
            lemma_first_none(self@, alpn@);
        }
        None
    }

    /// Registers a protocol. Returns the position of its handler: that of the
    /// one it replaces, or a new one at the end.
    pub fn register_alpn(&mut self, alpn: &[u8]) -> (pos: usize)
        ensures
            match old(self)@.index_of_first(alpn@) {
                Some(i) => pos == i && final(self)@ == old(self)@,
                None => pos == old(self)@.len() && final(self)@ == old(self)@.push(alpn@),
            },
    {
        match self.position(alpn) {
            Some(i) => i,
            None => {
                let n: usize = self.names.len();
                let mut name: Vec<u8> = Vec::new();
                name.extend_from_slice(alpn);
                assert(name@ =~= alpn@);
                self.names.push(name);
                assert(self@ =~= old(self)@.push(alpn@));
                n
            },
        }
    }

    /// Where a connection with a protocol goes.
    pub fn route(&self, alpn: &[u8]) -> (r: Route)
        ensures
            r == route_of(self@, alpn@),
    {
        if same_bytes(alpn, FORGETTY_PAIRING_ALPN.as_bytes()) {
            return Route::Pairing;
        }
        match self.position(alpn) {
            Some(i) => Route::Handler(i),
            None => Route::Unknown,
        }
    }
}

} // verus!

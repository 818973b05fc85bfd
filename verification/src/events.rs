//! The event dispatcher of a module.
//!
//! One dispatcher serves one module. Its caller takes the events of the
//! adapter one by one, hands each to the dispatcher, and does what the
//! dispatcher answers: resolve a device, call a callback, or leave the loop.
//! The dispatcher keeps the table that leads from the identifier of a device
//! to its address, which is what a disconnection is reported by.

use crate::address::{compact, get_long_addr};
use crate::gatt::{service_views, Characteristic, Service, ServiceView, Uuid};
use crate::handle::{check_module, module_ready, CModule, CPeripheral, PeripheralView};
use crate::status::{BleError, INVALID_ARGUMENT, SUCCESS};
use vstd::prelude::*;
use vstd::string::*;

verus! {

/// An event of the adapter, as far as the dispatcher acts on it.
#[derive(Clone, Debug, PartialEq, Eq)]
pub enum CentralEvent {
    /// A device was seen for the first time.
    DeviceDiscovered(String),
    /// A device advertised services.
    ServicesAdvertisement { id: String, services: Vec<Uuid> },
    /// A device went away.
    DeviceDisconnected(String),
    /// Any other event.
    Other,
}

/// What the dispatcher asks of its caller after an event.
#[derive(Debug, PartialEq, Eq)]
pub enum EventAction {
    /// Leave the loop: the module was released.
    Stop,
    /// Ask the adapter for the device `id`, and hand the outcome to
    /// `device_resolved` together with `id` and `services`.
    Resolve { id: String, services: Option<Vec<Uuid>> },
    /// Call the disconnection callback with this address.
    Disconnected(u64),
    /// Nothing to do.
    Ignore,
}

/// A device to announce through the found callback.
#[derive(Debug)]
pub struct Found {
    /// The compacted address of the device.
    pub address: u64,
    /// The new handle of the device.
    pub peripheral: CPeripheral,
    /// The services that the callback is told of: those of the advertisement;
    /// none where the device was announced without one.
    pub services: Option<Vec<Uuid>>,
    /// The number of these services as the callback takes it: the low 32 bits
    /// of the count, read as a signed integer.
    pub service_count: i32,
}

/// One line of the device table.
#[derive(Debug)]
pub struct Device {
    pub id: String,
    pub address: u64,
}

/// Whether no identifier stands in two lines.
pub open spec fn distinct_ids(devices: Seq<Device>) -> bool {
    forall|i: int, j: int|
        0 <= i < j < devices.len() ==> (#[trigger] devices[i]).id@ != (#[trigger] devices[j]).id@
}

/// Whether some line holds `id`.
pub open spec fn holds_id(devices: Seq<Device>, id: Seq<char>) -> bool {
    exists|i: int| 0 <= i < devices.len() && (#[trigger] devices[i]).id@ == id
}

/// A line that holds `id`, where there is one.
pub open spec fn line_of(devices: Seq<Device>, id: Seq<char>) -> int {
    choose|i: int| 0 <= i < devices.len() && (#[trigger] devices[i]).id@ == id
}

/// The map that the lines stand for.
pub open spec fn device_map(devices: Seq<Device>) -> Map<Seq<char>, u64> {
    Map::new(
        |id: Seq<char>| holds_id(devices, id),
        |id: Seq<char>| devices[line_of(devices, id)].address,
    )
}

/// The table from the identifiers of the devices seen to their compacted
/// addresses. An identifier has at most one address: the last one recorded.
#[derive(Debug)]
pub struct DeviceTable {
    devices: Vec<Device>,
}

impl View for DeviceTable {
    type V = Map<Seq<char>, u64>;

    closed spec fn view(&self) -> Map<Seq<char>, u64> {
        device_map(self.devices@)
    }
}

impl DeviceTable {
    #[verifier::type_invariant]
    spec fn well_formed(self) -> bool {
        distinct_ids(self.devices@)
    }

    /// A table without devices.
    pub fn new() -> (table: DeviceTable)
        ensures
            table@ == Map::<Seq<char>, u64>::empty(),
    {
        let table = DeviceTable { devices: Vec::new() };
        assert(table@ =~= Map::<Seq<char>, u64>::empty());
        table
    }

    /// The line that holds `id`.
    fn find(&self, id: &String) -> (line: Option<usize>)
        ensures
            line matches Some(i) ==> i < self.devices@.len() && self.devices@[i as int].id@ == id@,
            line is None ==> !holds_id(self.devices@, id@),
    {
        let n: usize = self.devices.len();
        let mut i: usize = 0;
        while i < n
            invariant
                n == self.devices@.len(),
                i <= n,
                forall|j: int| 0 <= j < i ==> (#[trigger] self.devices@[j]).id@ != id@,
            decreases n - i,
        {
            if self.devices[i].id == *id {
                return Some(i);
            }
            i = i + 1;
        }
        None
    }

    /// The address recorded for `id`.
    pub fn get(&self, id: &String) -> (address: Option<u64>)
        ensures
            address == (if self@.contains_key(id@) {
                Some(self@[id@])
            } else {
                None
            }),
    {
        proof {
            use_type_invariant(self);
        }
        match self.find(id) {
            None => None,
            Some(i) => {
                assert(holds_id(self.devices@, id@));
                Some(self.devices[i].address)
            },
        }
    }

    /// Records `address` for `id`, in place of any address recorded before.
    pub fn insert(&mut self, id: String, address: u64)
        ensures
            final(self)@ == old(self)@.insert(id@, address),
    {
        proof {
            use_type_invariant(&*self);
        }
        let ghost before = self.devices@;
        let ghost key = id@;
        let line = self.find(&id);
        let mut devices: Vec<Device> = Vec::new();
        std::mem::swap(&mut self.devices, &mut devices);
        match line {
            None => {
                devices.push(Device { id, address });
                proof {
                    lemma_line_written(before, devices@, before.len() as int, key, address);
                }
            },
            Some(i) => {
                devices.set(i, Device { id, address });
                proof {
                    lemma_line_written(before, devices@, i as int, key, address);
                }
            },
        }
        self.devices = devices;
    }
}

/// Writing one line of a table records its address under its identifier and
/// leaves every other identifier with the address it had. The line either
/// takes the place of the line that held the identifier, or is a new last
/// line for an identifier that no line held.
proof fn lemma_line_written(
    before: Seq<Device>,
    after: Seq<Device>,
    at: int,
    key: Seq<char>,
    address: u64,
)
    requires
        distinct_ids(before),
        0 <= at < after.len(),
        after[at].id@ == key,
        after[at].address == address,
        forall|i: int| 0 <= i < before.len() && i != at ==> #[trigger] after[i] == before[i],
        (at < before.len() && after.len() == before.len() && before[at].id@ == key) || (at
            == before.len() && after.len() == before.len() + 1 && !holds_id(before, key)),
    ensures
        distinct_ids(after),
        device_map(after) == device_map(before).insert(key, address),
{
    assert forall|i: int, j: int| 0 <= i < j < after.len() implies (#[trigger] after[i]).id@ != (
    #[trigger] after[j]).id@ by {
        if i != at && j != at {
            assert(after[i] == before[i] && after[j] == before[j]);
        } else if at < before.len() {
            let other = if i == at {
                j
            } else {
                i
            };
            assert(after[other] == before[other]);
            assert(before[other].id@ != before[at].id@);
        } else {
            assert(after[i] == before[i]);
            assert(before[i].id@ != key);
        }
    }
    assert forall|k: Seq<char>| #[trigger]
        holds_id(after, k) == (k == key || holds_id(before, k)) by {
        if holds_id(after, k) {
            let i = line_of(after, k);
            if i != at {
                assert(after[i] == before[i]);
                assert(before[i].id@ == k);
            }
        }
        if holds_id(before, k) && k != key {
            let i = line_of(before, k);
            assert(after[i] == before[i]);
            assert(after[i].id@ == k);
        }
    }
    assert forall|k: Seq<char>| holds_id(before, k) && k != key implies after[line_of(
        after,
        k,
    )].address == before[line_of(before, k)].address by {
        let i = line_of(before, k);
        assert(after[i] == before[i]);
        let j = line_of(after, k);
        assert(i == j);
    }
    assert(line_of(after, key) == at);
    assert(device_map(after) =~= device_map(before).insert(key, address));
}

/// A dispatcher as a mathematical value.
pub struct DispatcherView {
    /// The address recorded for each identifier.
    pub devices: Map<Seq<char>, u64>,
    /// Whether the dispatcher has told its caller to leave the loop.
    pub stopped: bool,
}

/// The state of the event loop of one module.
#[derive(Debug)]
pub struct Dispatcher {
    devices: DeviceTable,
    stopped: bool,
}

impl View for Dispatcher {
    type V = DispatcherView;

    closed spec fn view(&self) -> DispatcherView {
        DispatcherView { devices: self.devices@, stopped: self.stopped }
    }
}

/// What an event asks of the caller. `live` says whether the dispatcher is
/// still running and its module still there.
pub open spec fn event_action(
    devices: Map<Seq<char>, u64>,
    live: bool,
    event: CentralEvent,
) -> EventAction {
    if !live {
        EventAction::Stop
    } else {
        match event {
            CentralEvent::DeviceDiscovered(id) => EventAction::Resolve { id, services: None },
            CentralEvent::ServicesAdvertisement { id, services } => EventAction::Resolve {
                id,
                services: Some(services),
            },
            CentralEvent::DeviceDisconnected(id) => if devices.contains_key(id@) {
                EventAction::Disconnected(devices[id@])
            } else {
                EventAction::Ignore
            },
            CentralEvent::Other => EventAction::Ignore,
        }
    }
}

/// Whether an action makes the caller call a callback, now or after it has
/// resolved a device.
pub open spec fn reaches_callback(action: EventAction) -> bool {
    action is Resolve || action is Disconnected
}

/// The services that an advertisement names, or none without one.
pub open spec fn advertised_services(services: Option<Vec<Uuid>>) -> Seq<Uuid> {
    match services {
        Some(list) => list@,
        None => Seq::empty(),
    }
}

/// What a handle knows of services that were only named: their identifiers,
/// and no characteristic yet.
pub open spec fn named_services(uuids: Seq<Uuid>) -> Seq<ServiceView> {
    uuids.map_values(|uuid: Uuid| ServiceView { uuid, characteristics: Seq::empty() })
}

/// The services `uuids`, of which no characteristic is known.
pub fn services_named(uuids: &Vec<Uuid>) -> (services: Vec<Service>)
    ensures
        service_views(services@) == named_services(uuids@),
{
    let mut services: Vec<Service> = Vec::new();
    let n: usize = uuids.len();
    let mut i: usize = 0;
    assert(service_views(services@) =~= named_services(uuids@.take(0)));
    while i < n
        invariant
            n == uuids@.len(),
            i <= n,
            services@.len() == i,
            service_views(services@) == named_services(uuids@.take(i as int)),
        decreases n - i,
    {
        let ghost before = services@;
        let characteristics: Vec<Characteristic> = Vec::new();
        let service = Service { uuid: uuids[i], characteristics };
        assert(service@.characteristics =~= Seq::empty());
        services.push(service);
        proof {
            let shorter = named_services(uuids@.take(i as int));
            let longer = named_services(uuids@.take(i + 1));
            assert(longer.len() == i + 1);
            assert(service_views(services@).len() == i + 1);
            assert forall|k: int| 0 <= k < i + 1 implies service_views(services@)[k]
                == longer[k] by {
                if k < i {
                    assert(services@[k] == before[k]);
                    assert(service_views(before)[k] == shorter[k]);
                    assert(uuids@.take(i as int)[k] == uuids@.take(i + 1)[k]);
                } else {
                    assert(services@[k] == service);
                    assert(uuids@.take(i + 1)[k] == uuids@[i as int]);
                }
            }
            assert(service_views(services@) =~= longer);
        }
        i = i + 1;
    }
    assert(uuids@.take(n as int) =~= uuids@);
    services
}

impl Dispatcher {
    /// A running dispatcher that has seen no device.
    pub fn new() -> (dispatcher: Dispatcher)
        ensures
            dispatcher@ == (DispatcherView { devices: Map::empty(), stopped: false }),
    {
        Dispatcher { devices: DeviceTable::new(), stopped: false }
    }

    /// Whether the dispatcher has told its caller to leave the loop.
    pub fn is_stopped(&self) -> (stopped: bool)
        ensures
            stopped == self@.stopped,
    {
        self.stopped
    }

    /// The address recorded for the device `id`.
    pub fn address_of(&self, id: &String) -> (address: Option<u64>)
        ensures
            address == (if self@.devices.contains_key(id@) {
                Some(self@.devices[id@])
            } else {
                None
            }),
    {
        self.devices.get(id)
    }

    /// Takes one event of the adapter. `module` is the module of the
    /// dispatcher, or none once it was released: the dispatcher then stops,
    /// and it stays stopped. The table of devices does not change.
    pub fn handle_event(&mut self, module: Option<&CModule>, event: CentralEvent) -> (action:
        EventAction)
        ensures
            final(self)@.devices == old(self)@.devices,
            final(self)@.stopped == (old(self)@.stopped || module is None),
            action == event_action(old(self)@.devices, !final(self)@.stopped, event),
    {
        if self.stopped || module.is_none() {
            self.stopped = true;
            return EventAction::Stop;
        }
        match event {
            CentralEvent::DeviceDiscovered(id) => EventAction::Resolve { id, services: None },
            CentralEvent::ServicesAdvertisement { id, services } => EventAction::Resolve {
                id,
                services: Some(services),
            },
            CentralEvent::DeviceDisconnected(id) => match self.devices.get(&id) {
                Some(address) => EventAction::Disconnected(address),
                None => EventAction::Ignore,
            },
            CentralEvent::Other => EventAction::Ignore,
        }
    }

    /// Takes the outcome of resolving the device `id`: its hardware address,
    /// or the failure of the adapter. For an address the dispatcher records
    /// it under `id` and makes the handle to announce. The handle knows the
    /// services that the event named, and the callback is told of them
    /// exactly where the event was an advertisement. A failure announces
    /// nothing and changes nothing, and neither does any outcome once the
    /// dispatcher has stopped.
    pub fn device_resolved(
        &mut self,
        module: &CModule,
        id: String,
        services: Option<Vec<Uuid>>,
        address: Result<[u8; 6], BleError>,
    ) -> (found: Option<Found>)
        ensures
            final(self)@.stopped == old(self)@.stopped,
            old(self)@.stopped || address is Err ==> found is None && final(self)@ == old(self)@,
            !old(self)@.stopped && address is Ok ==> {
                &&& final(self)@.devices == old(self)@.devices.insert(
                    id@,
                    compact(address->Ok_0@) as u64,
                )
                &&& found is Some
                &&& found->0.address == compact(address->Ok_0@)
                &&& found->0.peripheral@ == (PeripheralView {
                    runtime: module@.runtime,
                    id: id@,
                    address: address->Ok_0@,
                    services: named_services(advertised_services(services)),
                    last_error: Seq::empty(),
                })
                &&& found->0.services == services
                &&& found->0.service_count == advertised_services(services).len() as i32
            },
    {
        if self.stopped {
            return None;
        }
        match address {
            Err(_) => None,
            Ok(bytes) => {
                let address = get_long_addr(bytes);
                let (known, service_count) = match &services {
                    Some(list) => (services_named(list), #[verifier::truncate] (list.len() as i32)),
                    None => {
                        let none: Vec<Service> = Vec::new();
                        assert(service_views(none@) =~= named_services(Seq::empty()));
                        (none, 0i32)
                    },
                };
                let mut devices = DeviceTable::new();
                std::mem::swap(&mut self.devices, &mut devices);
                devices.insert(id.clone(), address);
                self.devices = devices;
                let peripheral = CPeripheral::new(module, id, bytes, known);
                Some(Found { address, peripheral, services, service_count })
            },
        }
    }
}

/// Whether the found callback took the handle it was given. The answer zero
/// rejects it, and the caller then releases the handle at once; any other
/// answer leaves the handle with the host.
pub fn found_accepted(reply: i32) -> (accepted: bool)
    ensures
        accepted == (reply != 0),
{
    reply != 0
}

/// Makes the dispatcher of `module`, with the status to report. A module
/// that is missing, or lacks its execution context or its adapter, gets no
/// dispatcher. The module is only read: a refusal leaves it as it was, its
/// last error included.
pub fn set_event_callbacks(module: Option<&CModule>) -> (started: (i32, Option<Dispatcher>))
    ensures
        module is Some && module_ready(module->0@) ==> {
            &&& started.0 == SUCCESS
            &&& started.1 is Some
            &&& started.1->0@ == (DispatcherView { devices: Map::empty(), stopped: false })
        },
        !(module is Some && module_ready(module->0@)) ==> {
            &&& started.0 == INVALID_ARGUMENT
            &&& started.1 is None
        },
{
    let status = check_module(module);
    if status == SUCCESS {
        (status, Some(Dispatcher::new()))
    } else {
        (status, None)
    }
}

/// Once a module is released, no event reaches a callback: whatever the
/// event and whatever the dispatcher has recorded, the caller is told to
/// leave the loop. The same holds of every event after the dispatcher has
/// stopped.
pub proof fn lemma_released_module_is_silent(devices: Map<Seq<char>, u64>, event: CentralEvent)
    ensures
        event_action(devices, false, event) == EventAction::Stop,
        !reaches_callback(event_action(devices, false, event)),
{
}

/// A disconnection reaches the callback exactly for a device that was
/// recorded, and then with the address recorded for it.
pub proof fn lemma_disconnection_routing(devices: Map<Seq<char>, u64>, id: String)
    ensures
        devices.contains_key(id@) ==> event_action(
            devices,
            true,
            CentralEvent::DeviceDisconnected(id),
        ) == EventAction::Disconnected(devices[id@]),
        !devices.contains_key(id@) ==> event_action(
            devices,
            true,
            CentralEvent::DeviceDisconnected(id),
        ) == EventAction::Ignore,
{
}

} // verus!

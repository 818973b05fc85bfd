use ble_bridge::{
    found_accepted, services_named, set_event_callbacks, BleError, CModule, CentralEvent,
    DeviceTable, Dispatcher, EventAction, Failure, Service, Uuid, INVALID_ARGUMENT, SUCCESS,
};

fn id(text: &str) -> String {
    text.to_string()
}

fn unknown_device() -> BleError {
    BleError { kind: Failure::DeviceNotFound, message: "Device not found".to_string() }
}

#[test]
fn table_starts_empty() {
    let table = DeviceTable::new();
    assert_eq!(table.get(&id("a")), None);
    assert_eq!(table.get(&id("")), None);
}

#[test]
fn table_records_and_overwrites() {
    let mut table = DeviceTable::new();
    table.insert(id("a"), 1);
    table.insert(id("b"), 2);
    table.insert(id(""), 3);
    assert_eq!(table.get(&id("a")), Some(1));
    assert_eq!(table.get(&id("b")), Some(2));
    assert_eq!(table.get(&id("")), Some(3));
    assert_eq!(table.get(&id("c")), None);
    table.insert(id("a"), 9);
    assert_eq!(table.get(&id("a")), Some(9));
    assert_eq!(table.get(&id("b")), Some(2));
    table.insert(id("b"), 8);
    assert_eq!(table.get(&id("a")), Some(9));
    assert_eq!(table.get(&id("b")), Some(8));
    assert_eq!(table.get(&id("")), Some(3));
}

#[test]
fn dispatcher_is_made_for_a_whole_module() {
    let m = CModule::new(true, true);
    let (status, dispatcher) = set_event_callbacks(Some(&m));
    assert_eq!(status, SUCCESS);
    let dispatcher = dispatcher.expect("a dispatcher");
    assert!(!dispatcher.is_stopped());
    assert_eq!(dispatcher.address_of(&id("a")), None);
    assert_eq!(m.last_error(), "");
}

#[test]
fn no_dispatcher_without_a_module() {
    let (status, dispatcher) = set_event_callbacks(None);
    assert_eq!(status, INVALID_ARGUMENT);
    assert!(dispatcher.is_none());
}

#[test]
fn no_dispatcher_for_half_a_module() {
    for (runtime, adapter) in [(false, false), (true, false), (false, true)] {
        let mut m = CModule::new(runtime, adapter);
        m.set_error_str("why the start failed");
        let (status, dispatcher) = set_event_callbacks(Some(&m));
        assert_eq!(status, INVALID_ARGUMENT);
        assert!(dispatcher.is_none());
        assert_eq!(m.last_error(), "why the start failed");
        assert_eq!(m.has_runtime(), runtime);
        assert_eq!(m.has_adapter(), adapter);
    }
}

#[test]
fn discovery_asks_to_resolve() {
    let m = CModule::new(true, true);
    let mut d = Dispatcher::new();
    let action = d.handle_event(Some(&m), CentralEvent::DeviceDiscovered(id("dev1")));
    assert_eq!(action, EventAction::Resolve { id: id("dev1"), services: None });
    assert_eq!(d.address_of(&id("dev1")), None);
    assert!(!d.is_stopped());
}

#[test]
fn advertisement_asks_to_resolve_with_its_services() {
    let m = CModule::new(true, true);
    let mut d = Dispatcher::new();
    let services = vec![Uuid { bytes: [1; 16] }, Uuid { bytes: [2; 16] }];
    let action = d.handle_event(
        Some(&m),
        CentralEvent::ServicesAdvertisement { id: id("dev1"), services: services.clone() },
    );
    assert_eq!(action, EventAction::Resolve { id: id("dev1"), services: Some(services) });
}

#[test]
fn resolved_discovery_is_announced_without_services() {
    let m = CModule::new(true, true);
    let mut d = Dispatcher::new();
    let found = d
        .device_resolved(&m, id("dev1"), None, Ok([0x12, 0x34, 0x56, 0x78, 0x9a, 0xbc]))
        .expect("a device to announce");
    assert_eq!(found.address, 0x1234_5678_9abc);
    assert_eq!(found.services, None);
    assert_eq!(found.service_count, 0);
    assert_eq!(found.peripheral.id(), "dev1");
    assert_eq!(found.peripheral.address(), [0x12, 0x34, 0x56, 0x78, 0x9a, 0xbc]);
    assert!(found.peripheral.services().is_empty());
    assert!(found.peripheral.has_runtime());
    assert_eq!(found.peripheral.last_error(), "");
    assert_eq!(d.address_of(&id("dev1")), Some(0x1234_5678_9abc));
}

#[test]
fn resolved_advertisement_is_announced_with_its_services() {
    let m = CModule::new(true, true);
    let mut d = Dispatcher::new();
    let services = vec![Uuid { bytes: [1; 16] }, Uuid { bytes: [2; 16] }, Uuid { bytes: [3; 16] }];
    let found = d
        .device_resolved(&m, id("dev2"), Some(services.clone()), Ok([0, 0, 0, 0, 0, 7]))
        .expect("a device to announce");
    assert_eq!(found.address, 7);
    assert_eq!(found.services, Some(services.clone()));
    assert_eq!(found.service_count, 3);
    let known: Vec<Service> =
        services.iter().map(|u| Service { uuid: *u, characteristics: vec![] }).collect();
    assert_eq!(found.peripheral.services(), &known);
    assert_eq!(d.address_of(&id("dev2")), Some(7));
}

#[test]
fn advertisement_without_services_still_hands_a_list() {
    let m = CModule::new(true, true);
    let mut d = Dispatcher::new();
    let found = d.device_resolved(&m, id("dev"), Some(vec![]), Ok([0; 6])).expect("a device");
    assert_eq!(found.services, Some(vec![]));
    assert_eq!(found.service_count, 0);
    assert!(found.peripheral.services().is_empty());
}

#[test]
fn named_services_have_no_characteristics() {
    assert!(services_named(&vec![]).is_empty());
    let uuids = vec![Uuid { bytes: [9; 16] }, Uuid { bytes: [8; 16] }];
    assert_eq!(
        services_named(&uuids),
        vec![
            Service { uuid: Uuid { bytes: [9; 16] }, characteristics: vec![] },
            Service { uuid: Uuid { bytes: [8; 16] }, characteristics: vec![] },
        ]
    );
}

#[test]
fn unresolved_device_is_not_announced() {
    let m = CModule::new(true, true);
    let mut d = Dispatcher::new();
    assert!(d.device_resolved(&m, id("dev1"), None, Err(unknown_device())).is_none());
    assert_eq!(d.address_of(&id("dev1")), None);
    assert!(!d.is_stopped());
}

#[test]
fn disconnection_of_a_known_device_is_reported_by_address() {
    let m = CModule::new(true, true);
    let mut d = Dispatcher::new();
    d.device_resolved(&m, id("dev1"), None, Ok([0, 0, 0, 0, 1, 2]));
    d.device_resolved(&m, id("dev2"), None, Ok([0, 0, 0, 0, 3, 4]));
    assert_eq!(
        d.handle_event(Some(&m), CentralEvent::DeviceDisconnected(id("dev2"))),
        EventAction::Disconnected(0x0304)
    );
    assert_eq!(
        d.handle_event(Some(&m), CentralEvent::DeviceDisconnected(id("dev1"))),
        EventAction::Disconnected(0x0102)
    );
}

#[test]
fn disconnection_of_an_unknown_device_is_dropped() {
    let m = CModule::new(true, true);
    let mut d = Dispatcher::new();
    d.device_resolved(&m, id("dev1"), None, Ok([0, 0, 0, 0, 1, 2]));
    assert_eq!(
        d.handle_event(Some(&m), CentralEvent::DeviceDisconnected(id("other"))),
        EventAction::Ignore
    );
    assert!(!d.is_stopped());
}

#[test]
fn a_device_seen_again_keeps_its_last_address() {
    let m = CModule::new(true, true);
    let mut d = Dispatcher::new();
    d.device_resolved(&m, id("dev1"), None, Ok([0, 0, 0, 0, 0, 1]));
    d.device_resolved(&m, id("dev1"), Some(vec![]), Ok([0, 0, 0, 0, 0, 2]));
    assert_eq!(
        d.handle_event(Some(&m), CentralEvent::DeviceDisconnected(id("dev1"))),
        EventAction::Disconnected(2)
    );
}

#[test]
fn other_events_are_ignored() {
    let m = CModule::new(true, true);
    let mut d = Dispatcher::new();
    assert_eq!(d.handle_event(Some(&m), CentralEvent::Other), EventAction::Ignore);
    assert!(!d.is_stopped());
}

#[test]
fn released_module_stops_the_dispatcher() {
    let m = CModule::new(true, true);
    let mut d = Dispatcher::new();
    d.device_resolved(&m, id("dev1"), None, Ok([0, 0, 0, 0, 0, 1]));
    let events = [
        CentralEvent::DeviceDiscovered(id("dev2")),
        CentralEvent::ServicesAdvertisement { id: id("dev2"), services: vec![] },
        CentralEvent::DeviceDisconnected(id("dev1")),
        CentralEvent::Other,
    ];
    for event in events {
        let mut fresh = Dispatcher::new();
        fresh.device_resolved(&m, id("dev1"), None, Ok([0, 0, 0, 0, 0, 1]));
        assert_eq!(fresh.handle_event(None, event), EventAction::Stop);
        assert!(fresh.is_stopped());
    }
    assert_eq!(d.handle_event(None, CentralEvent::Other), EventAction::Stop);
    assert!(d.is_stopped());
}

#[test]
fn stopped_dispatcher_stays_stopped() {
    let m = CModule::new(true, true);
    let mut d = Dispatcher::new();
    d.device_resolved(&m, id("dev1"), None, Ok([0, 0, 0, 0, 0, 1]));
    assert_eq!(d.handle_event(None, CentralEvent::Other), EventAction::Stop);
    assert_eq!(
        d.handle_event(Some(&m), CentralEvent::DeviceDisconnected(id("dev1"))),
        EventAction::Stop
    );
    assert_eq!(
        d.handle_event(Some(&m), CentralEvent::DeviceDiscovered(id("dev3"))),
        EventAction::Stop
    );
    assert!(d.device_resolved(&m, id("dev3"), None, Ok([0, 0, 0, 0, 0, 3])).is_none());
    assert_eq!(d.address_of(&id("dev3")), None);
    assert_eq!(d.address_of(&id("dev1")), Some(1));
    assert!(d.is_stopped());
}

#[test]
fn new_handle_takes_the_runtime_of_its_module() {
    let m = CModule::new(false, false);
    let mut d = Dispatcher::new();
    let found = d.device_resolved(&m, id("dev1"), None, Ok([0; 6])).expect("a device");
    assert!(!found.peripheral.has_runtime());
}

#[test]
fn found_callback_answer() {
    assert!(!found_accepted(0));
    assert!(found_accepted(1));
    assert!(found_accepted(-1));
    assert!(found_accepted(i32::MIN));
}

use ble_bridge::{
    check_module, create_module, free_module, free_peripheral, free_ptr, free_string,
    get_central, get_last_module_error, peripheral_get_address, peripheral_get_id,
    peripheral_get_last_error, BleError, CModule, CPeripheral, Failure, Service, Startup, Uuid,
    ERROR_FAIL, ERROR_PERMISSION_DENIED, ERROR_RUNTIME_ERROR, INVALID_ARGUMENT, NO_ADAPTERS,
    SUCCESS,
};

fn peripheral(runtime: bool) -> CPeripheral {
    CPeripheral::new(
        &CModule::new(runtime, runtime),
        "hci0/dev_01".to_string(),
        [1, 2, 3, 4, 5, 6],
        vec![Service { uuid: Uuid { bytes: [7; 16] }, characteristics: vec![] }],
    )
}

#[test]
fn new_module_has_its_parts_and_no_error() {
    let m = CModule::new(true, false);
    assert!(m.has_runtime());
    assert!(!m.has_adapter());
    assert_eq!(m.last_error(), "");
}

#[test]
fn module_error_slot_takes_texts_and_failures() {
    let mut m = CModule::new(true, true);
    m.set_error_str("first");
    assert_eq!(m.last_error(), "first");
    m.set_error_string("second".to_string());
    assert_eq!(m.last_error(), "second");
    m.set_error(&BleError { kind: Failure::TimedOut, message: "Timed out after 1s".to_string() });
    assert_eq!(m.last_error(), "Timed out after 1s");
    m.set_error_str("bad\0text");
    assert_eq!(m.last_error(), "Unknown error");
    assert!(m.has_runtime() && m.has_adapter());
}

#[test]
fn first_adapter_is_chosen() {
    assert_eq!(get_central(vec!["hci0", "hci1"]).ok(), Some("hci0"));
    assert_eq!(get_central(vec![42u8]).ok(), Some(42u8));
}

#[test]
fn no_adapter_is_a_runtime_error() {
    let e = get_central(Vec::<u8>::new()).expect_err("a failure");
    assert_eq!(e.kind, Failure::RuntimeError);
    assert_eq!(e.message, "Runtime Error: No adapters found");
    assert_eq!(NO_ADAPTERS, "Runtime Error: No adapters found");
}

#[test]
fn module_without_runtime() {
    let (m, status, adapter) =
        create_module::<u8>(Startup::RuntimeFailed("no threads".to_string()));
    assert_eq!(status, ERROR_FAIL);
    assert_eq!(adapter, None);
    assert!(!m.has_runtime());
    assert!(!m.has_adapter());
    assert_eq!(m.last_error(), "no threads");
    assert_eq!(get_last_module_error(Some(&m)).map(|s| s.as_str()), Some("no threads"));
}

#[test]
fn module_whose_adapters_could_not_be_listed() {
    let e = BleError { kind: Failure::PermissionDenied, message: "Permission denied".to_string() };
    let (m, status, adapter) = create_module::<u8>(Startup::AdapterFailed(e));
    assert_eq!(status, ERROR_PERMISSION_DENIED);
    assert_eq!(adapter, None);
    assert!(m.has_runtime());
    assert!(!m.has_adapter());
    assert_eq!(m.last_error(), "Permission denied");
}

#[test]
fn module_without_adapter() {
    let (m, status, adapter) = create_module(Startup::Adapters(Vec::<u8>::new()));
    assert_eq!(status, ERROR_RUNTIME_ERROR);
    assert_eq!(status, 111);
    assert_eq!(adapter, None);
    assert!(m.has_runtime());
    assert!(!m.has_adapter());
    assert_eq!(m.last_error(), "Runtime Error: No adapters found");
    assert_eq!(check_module(Some(&m)), INVALID_ARGUMENT);
    assert_eq!(
        get_last_module_error(Some(&m)).map(|s| s.as_str()),
        Some("Runtime Error: No adapters found")
    );
}

#[test]
fn module_of_a_good_start() {
    let (m, status, adapter) = create_module(Startup::Adapters(vec!["hci0", "hci1"]));
    assert_eq!(status, SUCCESS);
    assert_eq!(adapter, Some("hci0"));
    assert!(m.has_runtime());
    assert!(m.has_adapter());
    assert_eq!(m.last_error(), "");
    assert_eq!(check_module(Some(&m)), SUCCESS);
}

#[test]
fn startup_message_with_nul_falls_back() {
    let (m, status, _) = create_module::<u8>(Startup::RuntimeFailed("a\0b".to_string()));
    assert_eq!(status, ERROR_FAIL);
    assert_eq!(m.last_error(), "Unknown error");
}

#[test]
fn check_module_states() {
    assert_eq!(check_module(None), INVALID_ARGUMENT);
    let ready = CModule::new(true, true);
    assert_eq!(check_module(Some(&ready)), SUCCESS);
    assert_eq!(ready.last_error(), "");
    for (runtime, adapter) in [(false, false), (true, false), (false, true)] {
        let mut m = CModule::new(runtime, adapter);
        m.set_error_str("why the start failed");
        assert_eq!(check_module(Some(&m)), INVALID_ARGUMENT);
        assert_eq!(m.last_error(), "why the start failed");
        assert_eq!(m.has_runtime(), runtime);
        assert_eq!(m.has_adapter(), adapter);
    }
}

#[test]
fn last_error_of_no_handle_is_none() {
    assert_eq!(get_last_module_error(None), None);
    assert_eq!(peripheral_get_last_error(None), None);
}

#[test]
fn new_peripheral_holds_what_it_was_given() {
    let p = peripheral(true);
    assert!(p.has_runtime());
    assert_eq!(p.id(), "hci0/dev_01");
    assert_eq!(p.address(), [1, 2, 3, 4, 5, 6]);
    assert_eq!(
        p.services(),
        &vec![Service { uuid: Uuid { bytes: [7; 16] }, characteristics: vec![] }]
    );
    assert_eq!(p.last_error(), "");
    assert!(!peripheral(false).has_runtime());
}

#[test]
fn peripheral_error_slot() {
    let mut p = peripheral(true);
    p.set_peripheral_error_str("Null argument: data");
    assert_eq!(peripheral_get_last_error(Some(&p)).map(|s| s.as_str()), Some("Null argument: data"));
    p.set_error(&BleError { kind: Failure::NotConnected, message: "Not connected".to_string() });
    assert_eq!(p.last_error(), "Not connected");
    p.set_error(&BleError { kind: Failure::Other, message: "x\0".to_string() });
    assert_eq!(p.last_error(), "Unknown error");
    assert_eq!(p.id(), "hci0/dev_01");
}

#[test]
fn services_of_a_peripheral_are_replaced() {
    let mut p = peripheral(true);
    p.set_peripheral_error_str("earlier");
    let found = vec![
        Service { uuid: Uuid { bytes: [1; 16] }, characteristics: vec![] },
        Service { uuid: Uuid { bytes: [2; 16] }, characteristics: vec![] },
    ];
    p.set_services(found.clone());
    assert_eq!(p.services(), &found);
    assert_eq!(p.last_error(), "earlier");
    assert_eq!(p.id(), "hci0/dev_01");
    p.set_services(vec![]);
    assert!(p.services().is_empty());
}

#[test]
fn id_of_a_peripheral() {
    let p = peripheral(true);
    assert_eq!(peripheral_get_id(Some(&p)), (SUCCESS, Some("hci0/dev_01".to_string())));
}

#[test]
fn id_of_no_peripheral() {
    assert_eq!(peripheral_get_id(None), (INVALID_ARGUMENT, None));
}

#[test]
fn address_of_a_peripheral() {
    let p = peripheral(false);
    assert_eq!(peripheral_get_address(Some(&p)), (SUCCESS, Some(0x0102_0304_0506)));
}

#[test]
fn address_of_no_peripheral() {
    assert_eq!(peripheral_get_address(None), (INVALID_ARGUMENT, None));
}

#[test]
fn release_never_fails() {
    assert_eq!(free_ptr::<u8>(None), SUCCESS);
    assert_eq!(free_ptr(Some(vec![1, 2, 3])), SUCCESS);
    assert_eq!(free_module(None), SUCCESS);
    assert_eq!(free_module(Some(CModule::new(false, false))), SUCCESS);
    assert_eq!(free_peripheral(None), SUCCESS);
    assert_eq!(free_peripheral(Some(peripheral(true))), SUCCESS);
    assert_eq!(free_string(None), SUCCESS);
    assert_eq!(free_string(Some("text".to_string())), SUCCESS);
}

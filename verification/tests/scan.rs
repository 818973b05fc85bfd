use ble_bridge::{
    scan_completed, start_scan_peripherals, stop_scan_peripherals, BleError, CModule, Failure,
    ScanFilter, ScanRequest, Uuid, ERROR_FAIL, ERROR_PERMISSION_DENIED, INVALID_ARGUMENT,
    MAX_SCAN_FILTERS, SUCCESS,
};

#[test]
fn scan_without_module_is_refused() {
    assert_eq!(start_scan_peripherals(None, true, 0), ScanRequest::Refused(INVALID_ARGUMENT));
    assert_eq!(start_scan_peripherals(None, true, 5), ScanRequest::Refused(INVALID_ARGUMENT));
    assert_eq!(start_scan_peripherals(None, false, 500), ScanRequest::Refused(INVALID_ARGUMENT));
}

#[test]
fn scan_on_half_a_module_is_refused() {
    for (runtime, adapter) in [(false, false), (true, false), (false, true)] {
        for count in [0, 1, 100, 101, -1] {
            for has_list in [true, false] {
                let mut m = CModule::new(runtime, adapter);
                m.set_error_str("why the start failed");
                assert_eq!(
                    start_scan_peripherals(Some(&mut m), has_list, count),
                    ScanRequest::Refused(INVALID_ARGUMENT)
                );
                assert_eq!(m.last_error(), "why the start failed");
                assert_eq!(m.has_runtime(), runtime);
                assert_eq!(m.has_adapter(), adapter);
            }
        }
    }
}

#[test]
fn count_zero_scans_without_filter() {
    for has_list in [true, false] {
        let mut m = CModule::new(true, true);
        assert_eq!(
            start_scan_peripherals(Some(&mut m), has_list, 0),
            ScanRequest::Scan { filters: 0 }
        );
        assert_eq!(m.last_error(), "");
    }
}

#[test]
fn count_in_range_scans_with_that_many_filters() {
    assert_eq!(MAX_SCAN_FILTERS, 100);
    for count in [1, 2, 50, 99, 100] {
        let mut m = CModule::new(true, true);
        m.set_error_str("earlier");
        assert_eq!(
            start_scan_peripherals(Some(&mut m), true, count),
            ScanRequest::Scan { filters: count as usize }
        );
        assert_eq!(m.last_error(), "earlier");
    }
}

#[test]
fn count_in_range_without_list_is_refused() {
    for count in [1, 100] {
        let mut m = CModule::new(true, true);
        assert_eq!(
            start_scan_peripherals(Some(&mut m), false, count),
            ScanRequest::Refused(INVALID_ARGUMENT)
        );
        assert_eq!(m.last_error(), "Null argument: service_uuids");
    }
}

#[test]
fn count_out_of_range_is_refused() {
    for count in [101, 102, 1000, i32::MAX, -1, -100, i32::MIN] {
        for has_list in [true, false] {
            let mut m = CModule::new(true, true);
            assert_eq!(
                start_scan_peripherals(Some(&mut m), has_list, count),
                ScanRequest::Refused(ERROR_FAIL)
            );
            assert_eq!(
                m.last_error(),
                "Out of range: service_uuid_count must be in range 1..100"
            );
        }
    }
}

#[test]
fn filter_holds_the_services_in_order() {
    let list = [Uuid { bytes: [3; 16] }, Uuid { bytes: [1; 16] }, Uuid { bytes: [2; 16] }];
    assert_eq!(ScanFilter::new(&list).services, list.to_vec());
    assert_eq!(ScanFilter::new(&list[..1]).services, vec![Uuid { bytes: [3; 16] }]);
    assert!(ScanFilter::new(&[]).services.is_empty());
}

#[test]
fn stop_scan_states() {
    assert_eq!(stop_scan_peripherals(None), INVALID_ARGUMENT);
    let ready = CModule::new(true, true);
    assert_eq!(stop_scan_peripherals(Some(&ready)), SUCCESS);
    assert_eq!(ready.last_error(), "");
    for (runtime, adapter) in [(false, false), (true, false), (false, true)] {
        let mut half = CModule::new(runtime, adapter);
        half.set_error_str("why the start failed");
        assert_eq!(stop_scan_peripherals(Some(&half)), INVALID_ARGUMENT);
        assert_eq!(half.last_error(), "why the start failed");
    }
}

#[test]
fn scan_outcome_success() {
    let mut m = CModule::new(true, true);
    m.set_error_str("earlier");
    assert_eq!(scan_completed(&mut m, Ok(())), SUCCESS);
    assert_eq!(m.last_error(), "earlier");
}

#[test]
fn scan_outcome_failure() {
    let mut m = CModule::new(true, true);
    let e = BleError { kind: Failure::PermissionDenied, message: "Permission denied".to_string() };
    assert_eq!(scan_completed(&mut m, Err(e)), ERROR_PERMISSION_DENIED);
    assert_eq!(m.last_error(), "Permission denied");
    assert!(m.has_runtime() && m.has_adapter());
}

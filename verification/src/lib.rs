//! Decision logic of a C-callable bridge around an asynchronous Bluetooth Low
//! Energy central.
//!
//! The bridge hands a host application status codes, byte buffers and opaque
//! handles. Everything here is sequential and free of I/O: a caller performs
//! the radio work and the callbacks, and asks this library what each outcome
//! means for the handles, which status to report and which bytes to hand out.

pub mod address;
pub mod buffer;
pub mod events;
pub mod gatt;
pub mod handle;
pub mod logging;
pub mod operations;
pub mod scan;
pub mod status;

pub use address::{get_long_addr, get_short_addr, ADDRESS_LIMIT};
pub use buffer::{
    encode_services, free_peripheral_services, peripheral_get_services, read_header, record_count,
    write_characteristic, write_header, write_service, write_services, CharacteristicDescriptor,
    CharacteristicDescriptorDescriptor, ServiceDescriptor, ServiceDescriptors, HEADER_SIZE,
};
pub use events::{
    found_accepted, services_named, set_event_callbacks, CentralEvent, Device, DeviceTable,
    Dispatcher, EventAction, Found,
};
pub use gatt::{Characteristic, Descriptor, Service, Uuid};
pub use handle::{
    check_module, create_module, free_module, free_peripheral, free_ptr, free_string,
    get_central, get_last_module_error, peripheral_get_address, peripheral_get_id,
    peripheral_get_last_error, CModule, CPeripheral, Startup, NO_ADAPTERS,
};
pub use logging::set_log_level;
pub use operations::{
    is_connected_completed, notification_length, operation_completed, peripheral_connect,
    peripheral_disconnect, peripheral_discover_services, peripheral_is_connected,
    peripheral_register_notification_events, peripheral_subscribe, peripheral_unsubscribe,
    peripheral_write, services_discovered, Accepted, Operation, Submission, WriteType,
    NULL_DATA,
};
pub use scan::{
    scan_completed, start_scan_peripherals, stop_scan_peripherals, ScanFilter, ScanRequest,
    FILTER_COUNT_OUT_OF_RANGE, MAX_SCAN_FILTERS, NULL_SERVICE_UUIDS,
};
pub use status::{
    contains_nul, error_into_cstring, error_to_result, sanitize, BleError, Failure, ERROR_DEVICE_NOT_FOUND,
    ERROR_FAIL, ERROR_INVALID_BD_ADDR, ERROR_NOT_CONNECTED, ERROR_NOT_SUPPORTED,
    ERROR_NO_SUCH_CHARACTERISTIC, ERROR_PERMISSION_DENIED, ERROR_RUNTIME_ERROR, ERROR_TIMED_OUT,
    ERROR_UNEXPECTED_CALLBACK, ERROR_UNEXPECTED_CHARACTERISTIC, ERROR_UUID, INVALID_ARGUMENT,
    SUCCESS, UNKNOWN_ERROR,
};

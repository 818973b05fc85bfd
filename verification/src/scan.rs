//! Starting and stopping a scan for devices.
//!
//! A scan may be limited to devices that offer one of up to a hundred
//! services. The host names them in a list of its own, of which the bridge
//! reads as many entries as the host says there are: so the count is tested
//! before anything is read, and a count out of range starts nothing.

use crate::gatt::Uuid;
use crate::handle::{check_module, module_ready, CModule, ModuleView};
use crate::status::{
    error_to_result, result_code, slot_text, BleError, ERROR_FAIL, INVALID_ARGUMENT, SUCCESS,
};
use vstd::prelude::*;
use vstd::slice::*;
use vstd::string::*;

verus! {

/// The largest number of services that a scan can be limited to.
pub const MAX_SCAN_FILTERS: i32 = 100;

/// The text that an error slot gets when services are counted and no list
/// of them is given.
pub const NULL_SERVICE_UUIDS: &'static str = "Null argument: service_uuids";

/// The text that an error slot gets for a count of services out of range.
pub const FILTER_COUNT_OUT_OF_RANGE: &'static str =
    "Out of range: service_uuid_count must be in range 1..100";

/// The services that a scan is limited to; none for a scan without limit.
#[derive(Clone, Debug, PartialEq, Eq)]
pub struct ScanFilter {
    pub services: Vec<Uuid>,
}

/// What becomes of a call to start a scan.
#[derive(Clone, Copy, Debug, PartialEq, Eq, Structural)]
pub enum ScanRequest {
    /// The call is refused with this status, and no scan is started.
    Refused(i32),
    /// The scan is started, limited to the first `filters` services of the
    /// list of the host; without limit where `filters` is zero.
    Scan { filters: usize },
}

/// What becomes of a call to start a scan on a module, with a list of
/// services or without one, and with the count that the host gave.
pub open spec fn scan_request(module: ModuleView, has_list: bool, count: int) -> ScanRequest {
    if !module_ready(module) {
        ScanRequest::Refused(INVALID_ARGUMENT)
    } else if count == 0 {
        ScanRequest::Scan { filters: 0 }
    } else if 1 <= count <= MAX_SCAN_FILTERS {
        if has_list {
            ScanRequest::Scan { filters: count as usize }
        } else {
            ScanRequest::Refused(INVALID_ARGUMENT)
        }
    } else {
        ScanRequest::Refused(ERROR_FAIL)
    }
}

/// The error slot of a module after a call to start a scan. A module that
/// lacks its execution context or its adapter keeps its text, and so does a
/// module whose scan is started; a list or a count that is refused leaves
/// the reason.
pub open spec fn scan_request_error(module: ModuleView, has_list: bool, count: int) -> Seq<char> {
    if !module_ready(module) {
        module.last_error
    } else if count == 0 {
        module.last_error
    } else if 1 <= count <= MAX_SCAN_FILTERS {
        if has_list {
            module.last_error
        } else {
            NULL_SERVICE_UUIDS@
        }
    } else {
        FILTER_COUNT_OUT_OF_RANGE@
    }
}

/// Decides on a call to start a scan. `has_list` says whether the host gave
/// a list of services, `service_uuid_count` how many it says the list holds.
/// A module that lacks its execution context or its adapter refuses the call
/// and stays as it was. On any other module, a list or a count that is
/// refused leaves its reason in the error slot; nothing else of the module
/// changes.
pub fn start_scan_peripherals(
    module: Option<&mut CModule>,
    has_list: bool,
    service_uuid_count: i32,
) -> (request: ScanRequest)
    ensures
        module is None ==> request == ScanRequest::Refused(INVALID_ARGUMENT),
        module matches Some(m) ==> {
            &&& request == scan_request(m@, has_list, service_uuid_count as int)
            &&& final(m)@ == (ModuleView {
                last_error: scan_request_error(m@, has_list, service_uuid_count as int),
                ..m@
            })
        },
{
    match module {
        None => ScanRequest::Refused(INVALID_ARGUMENT),
        Some(m) => {
            if !(m.has_adapter() && m.has_runtime()) {
                ScanRequest::Refused(INVALID_ARGUMENT)
            } else if service_uuid_count == 0 {
                ScanRequest::Scan { filters: 0 }
            } else if 1 <= service_uuid_count && service_uuid_count <= MAX_SCAN_FILTERS {
                if has_list {
                    ScanRequest::Scan { filters: service_uuid_count as usize }
                } else {
                    proof {
                        reveal_strlit("Null argument: service_uuids");
                    }
                    m.set_error_str(NULL_SERVICE_UUIDS);
                    ScanRequest::Refused(INVALID_ARGUMENT)
                }
            } else {
                proof {
                    reveal_strlit("Out of range: service_uuid_count must be in range 1..100");
                }
                m.set_error_str(FILTER_COUNT_OUT_OF_RANGE);
                ScanRequest::Refused(ERROR_FAIL)
            }
        },
    }
}

impl ScanFilter {
    /// The filter that limits a scan to `services`, in their order.
    pub fn new(services: &[Uuid]) -> (filter: ScanFilter)
        ensures
            filter.services@ == services@,
    {
        let mut list: Vec<Uuid> = Vec::new();
        let n: usize = services.len();
        let mut i: usize = 0;
        while i < n
            invariant
                n == services@.len(),
                i <= n,
                list@ == services@.subrange(0, i as int),
            decreases n - i,
        {
            list.push(services[i]);
            i = i + 1;
            assert(list@ =~= services@.subrange(0, i as int));
        }
        assert(list@ =~= services@);
        ScanFilter { services: list }
    }
}

/// Decides on a call to stop a scan: the status `SUCCESS` lets the caller
/// stop it, any other refuses the call. The module is only read: a refusal
/// leaves it as it was.
pub fn stop_scan_peripherals(module: Option<&CModule>) -> (status: i32)
    ensures
        status == (if module is Some && module_ready(module->0@) {
            SUCCESS
        } else {
            INVALID_ARGUMENT
        }),
{
    check_module(module)
}

/// Takes the outcome of starting or stopping a scan and gives the status to
/// report. A failure leaves its text in the error slot of the module.
pub fn scan_completed(module: &mut CModule, outcome: Result<(), BleError>) -> (status: i32)
    ensures
        outcome is Ok ==> status == SUCCESS && final(module)@ == old(module)@,
        outcome matches Err(e) ==> status == result_code(e.kind) && final(module)@ == (ModuleView {
            last_error: slot_text(e.message@),
            ..old(module)@
        }),
{
    match outcome {
        Ok(_) => SUCCESS,
        Err(e) => {
            module.set_error(&e);
            error_to_result(&e)
        },
    }
}

/// On a module with its execution context and its adapter, the count of
/// services decides alone. Zero starts a scan without limit. A count from
/// one to a hundred, with a list, starts a scan limited to exactly that many
/// services. A negative count, or one above a hundred, starts no scan.
pub proof fn lemma_filter_bounds(module: ModuleView, has_list: bool, count: int)
    requires
        module_ready(module),
    ensures
        count == 0 ==> scan_request(module, has_list, count) == (ScanRequest::Scan { filters: 0 }),
        1 <= count <= 100 && has_list ==> scan_request(module, has_list, count) == (
        ScanRequest::Scan { filters: count as usize }),
        count < 0 || count > 100 ==> scan_request(module, has_list, count) == ScanRequest::Refused(
            ERROR_FAIL,
        ),
        scan_request(module, has_list, count) matches ScanRequest::Scan { filters } ==> filters
            == count && 0 <= count <= 100,
{
}

} // verus!

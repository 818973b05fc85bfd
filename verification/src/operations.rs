//! The operations on a device.
//!
//! Every operation runs in two steps. The host asks for it: the bridge
//! tests the handle and either refuses the call or accepts it and returns at
//! once. The caller then performs an accepted operation on the radio stack
//! and hands its outcome back, which gives the one status that the
//! completion callback is called with.
//!
//! An accepted operation is a value that only a call for an operation can
//! make and that cannot be copied, and completing it uses it up: so an
//! operation completes at most once. It is the duty of the caller to perform
//! every accepted operation, and to hand back the outcome of that operation
//! and of no other: a completion does not look into the value it uses up.

use crate::gatt::{service_views, Characteristic, CharacteristicView, Service, Uuid};
use crate::handle::{CPeripheral, PeripheralView};
use crate::status::{
    error_to_result, is_failure_code, lemma_result_code_is_failure, result_code, slot_text,
    BleError, INVALID_ARGUMENT, SUCCESS,
};
use vstd::prelude::*;
use vstd::slice::*;
use vstd::string::*;

verus! {

/// The text that an error slot gets when a write comes without data.
pub const NULL_DATA: &'static str = "Null argument: data";

/// How a value is written to a characteristic.
#[derive(Clone, Copy, Debug, PartialEq, Eq, Structural)]
pub enum WriteType {
    /// The device acknowledges the write.
    WithResponse,
    /// The device does not answer.
    WithoutResponse,
}

/// An operation to perform on a device.
#[derive(Debug, PartialEq, Eq)]
pub enum Operation {
    IsConnected,
    Connect,
    Disconnect,
    DiscoverServices,
    /// Open the stream of notifications.
    Notifications,
    Subscribe(Characteristic),
    Unsubscribe(Characteristic),
    Write { characteristic: Characteristic, data: Vec<u8>, write_type: WriteType },
}

/// An operation that was accepted and is yet to complete. Only the calls
/// that ask for an operation make such a value.
#[derive(Debug, PartialEq, Eq)]
pub struct Accepted {
    operation: Operation,
}

/// The answer to a call that asks for an operation.
#[derive(Debug, PartialEq, Eq)]
pub struct Submission {
    /// The status that the call returns: `SUCCESS` says that the operation
    /// was accepted, not that it completed.
    pub status: i32,
    /// The operation to perform; none where the call was refused.
    pub operation: Option<Accepted>,
}

/// An operation as a mathematical value.
pub enum OperationView {
    IsConnected,
    Connect,
    Disconnect,
    DiscoverServices,
    Notifications,
    Subscribe(CharacteristicView),
    Unsubscribe(CharacteristicView),
    Write { characteristic: CharacteristicView, data: Seq<u8>, write_type: WriteType },
}

impl View for Operation {
    type V = OperationView;

    open spec fn view(&self) -> OperationView {
        match *self {
            Operation::IsConnected => OperationView::IsConnected,
            Operation::Connect => OperationView::Connect,
            Operation::Disconnect => OperationView::Disconnect,
            Operation::DiscoverServices => OperationView::DiscoverServices,
            Operation::Notifications => OperationView::Notifications,
            Operation::Subscribe(c) => OperationView::Subscribe(c@),
            Operation::Unsubscribe(c) => OperationView::Unsubscribe(c@),
            Operation::Write { characteristic, data, write_type } => OperationView::Write {
                characteristic: characteristic@,
                data: data@,
                write_type,
            },
        }
    }
}

impl View for Accepted {
    type V = OperationView;

    closed spec fn view(&self) -> OperationView {
        self.operation@
    }
}

impl Accepted {
    /// The operation to perform.
    pub fn operation(&self) -> (operation: &Operation)
        ensures
            operation@ == self@,
    {
        &self.operation
    }
}

/// A submission as a mathematical value.
pub struct SubmissionView {
    pub status: i32,
    pub operation: Option<OperationView>,
}

impl View for Submission {
    type V = SubmissionView;

    open spec fn view(&self) -> SubmissionView {
        SubmissionView {
            status: self.status,
            operation: match self.operation {
                Some(operation) => Some(operation@),
                None => None,
            },
        }
    }
}

/// The characteristic `uuid` of the service `service_uuid`, of which no more
/// is known: no properties and no descriptors.
pub open spec fn named_characteristic(service_uuid: Uuid, uuid: Uuid) -> CharacteristicView {
    CharacteristicView { uuid, service_uuid, properties: 0, descriptors: Seq::empty() }
}

/// How to write with or without response.
pub open spec fn write_type_of(with_response: bool) -> WriteType {
    if with_response {
        WriteType::WithResponse
    } else {
        WriteType::WithoutResponse
    }
}

/// Whether `submission` is the answer to a call for `operation` on
/// `peripheral`. No handle, or a handle whose module has no execution
/// context, refuses the call; any other handle accepts it. The handle is
/// only read.
pub open spec fn submits(
    peripheral: Option<PeripheralView>,
    operation: OperationView,
    submission: SubmissionView,
) -> bool {
    if peripheral is Some && peripheral->0.runtime {
        submission.status == SUCCESS && submission.operation == Some(operation)
    } else {
        submission.status == INVALID_ARGUMENT && submission.operation is None
    }
}

/// The view of the handle behind an optional reference.
pub open spec fn handle_view(peripheral: Option<&CPeripheral>) -> Option<PeripheralView> {
    match peripheral {
        Some(p) => Some(p@),
        None => None,
    }
}

/// The answer to a call for `operation` on `peripheral`.
fn submit(peripheral: Option<&CPeripheral>, operation: Operation) -> (submission: Submission)
    ensures
        submits(handle_view(peripheral), operation@, submission@),
{
    match peripheral {
        None => Submission { status: INVALID_ARGUMENT, operation: None },
        Some(p) => {
            if p.has_runtime() {
                Submission { status: SUCCESS, operation: Some(Accepted { operation }) }
            } else {
                Submission { status: INVALID_ARGUMENT, operation: None }
            }
        },
    }
}

/// Asks whether the device is connected.
pub fn peripheral_is_connected(peripheral: Option<&CPeripheral>) -> (submission: Submission)
    ensures
        submits(handle_view(peripheral), OperationView::IsConnected, submission@),
{
    submit(peripheral, Operation::IsConnected)
}

/// Asks to connect to the device.
pub fn peripheral_connect(peripheral: Option<&CPeripheral>) -> (submission: Submission)
    ensures
        submits(handle_view(peripheral), OperationView::Connect, submission@),
{
    submit(peripheral, Operation::Connect)
}

/// Asks to disconnect from the device.
pub fn peripheral_disconnect(peripheral: Option<&CPeripheral>) -> (submission: Submission)
    ensures
        submits(handle_view(peripheral), OperationView::Disconnect, submission@),
{
    submit(peripheral, Operation::Disconnect)
}

/// Asks to discover the services of the device.
pub fn peripheral_discover_services(peripheral: Option<&CPeripheral>) -> (submission: Submission)
    ensures
        submits(handle_view(peripheral), OperationView::DiscoverServices, submission@),
{
    submit(peripheral, Operation::DiscoverServices)
}

/// Asks to open the stream of notifications of the device.
pub fn peripheral_register_notification_events(peripheral: Option<&CPeripheral>) -> (submission: Submission)
    ensures
        submits(handle_view(peripheral), OperationView::Notifications, submission@),
{
    submit(peripheral, Operation::Notifications)
}

/// Asks to subscribe to the characteristic `uuid` of the service
/// `service_uuid`.
pub fn peripheral_subscribe(peripheral: Option<&CPeripheral>, service_uuid: Uuid, uuid: Uuid) -> (submission:
    Submission)
    ensures
        submits(
            handle_view(peripheral),
            OperationView::Subscribe(named_characteristic(service_uuid, uuid)),
            submission@,
        ),
{
    let characteristic = Characteristic {
        uuid,
        service_uuid,
        properties: 0,
        descriptors: Vec::new(),
    };
    submit(peripheral, Operation::Subscribe(characteristic))
}

/// Asks to end the subscription to the characteristic `uuid` of the service
/// `service_uuid`.
pub fn peripheral_unsubscribe(peripheral: Option<&CPeripheral>, service_uuid: Uuid, uuid: Uuid) -> (submission:
    Submission)
    ensures
        submits(
            handle_view(peripheral),
            OperationView::Unsubscribe(named_characteristic(service_uuid, uuid)),
            submission@,
        ),
{
    let characteristic = Characteristic {
        uuid,
        service_uuid,
        properties: 0,
        descriptors: Vec::new(),
    };
    submit(peripheral, Operation::Unsubscribe(characteristic))
}

/// Whether `submission` is the answer to a call that writes `data` to the
/// characteristic `uuid` of the service `service_uuid` on `peripheral`, which
/// leaves `after` behind. The handle is judged first, as for every
/// operation: no handle, or a handle whose module has no execution context,
/// refuses the call and stays as it was. A call without data is refused
/// next, and the handle told why. Any other call is accepted; the operation
/// holds a copy of the data, and the handle does not change.
pub open spec fn submits_write(
    peripheral: Option<PeripheralView>,
    after: Option<PeripheralView>,
    service_uuid: Uuid,
    uuid: Uuid,
    with_response: bool,
    data: Option<Seq<u8>>,
    submission: SubmissionView,
) -> bool {
    match peripheral {
        None => submission.status == INVALID_ARGUMENT && submission.operation is None,
        Some(p) => if !p.runtime {
            &&& submission.status == INVALID_ARGUMENT
            &&& submission.operation is None
            &&& after == Some(p)
        } else {
            match data {
                None => {
                    &&& submission.status == INVALID_ARGUMENT
                    &&& submission.operation is None
                    &&& after == Some(PeripheralView { last_error: NULL_DATA@, ..p })
                },
                Some(bytes) => {
                    &&& submission.status == SUCCESS
                    &&& submission.operation == Some(
                        OperationView::Write {
                            characteristic: named_characteristic(service_uuid, uuid),
                            data: bytes,
                            write_type: write_type_of(with_response),
                        },
                    )
                    &&& after == Some(p)
                },
            }
        },
    }
}

/// The view of the bytes behind an optional slice.
pub open spec fn payload(data: Option<&[u8]>) -> Option<Seq<u8>> {
    match data {
        Some(bytes) => Some(bytes@),
        None => None,
    }
}

/// Asks to write `data` to the characteristic `uuid` of the service
/// `service_uuid`, with a response of the device or without one.
pub fn peripheral_write(
    peripheral: Option<&mut CPeripheral>,
    service_uuid: Uuid,
    uuid: Uuid,
    with_response: bool,
    data: Option<&[u8]>,
) -> (submission: Submission)
    ensures
        peripheral is None ==> submits_write(
            None,
            None,
            service_uuid,
            uuid,
            with_response,
            payload(data),
            submission@,
        ),
        peripheral matches Some(p) ==> submits_write(
            Some(p@),
            Some(final(p)@),
            service_uuid,
            uuid,
            with_response,
            payload(data),
            submission@,
        ),
{
    match peripheral {
        None => Submission { status: INVALID_ARGUMENT, operation: None },
        Some(p) => {
            if !p.has_runtime() {
                return Submission { status: INVALID_ARGUMENT, operation: None };
            }
            match data {
                None => {
                    proof {
                        reveal_strlit("Null argument: data");
                    }
                    p.set_peripheral_error_str(NULL_DATA);
                    Submission { status: INVALID_ARGUMENT, operation: None }
                },
                Some(bytes) => {
                    let characteristic = Characteristic {
                        uuid,
                        service_uuid,
                        properties: 0,
                        descriptors: Vec::new(),
                    };
                    let write_type = if with_response {
                        WriteType::WithResponse
                    } else {
                        WriteType::WithoutResponse
                    };
                    let operation = Operation::Write {
                        characteristic,
                        data: slice_to_vec(bytes),
                        write_type,
                    };
                    Submission { status: SUCCESS, operation: Some(Accepted { operation }) }
                },
            }
        },
    }
}

/// The status that the completion callback of an operation is called with.
pub open spec fn completion_status<T>(outcome: Result<T, BleError>) -> i32 {
    match outcome {
        Ok(_) => SUCCESS,
        Err(e) => result_code(e.kind),
    }
}

/// The handle of a device after an operation on it has completed: a failure
/// leaves its text in the error slot, success changes nothing.
pub open spec fn completed_peripheral<T>(
    peripheral: PeripheralView,
    outcome: Result<T, BleError>,
) -> PeripheralView {
    match outcome {
        Ok(_) => peripheral,
        Err(e) => PeripheralView { last_error: slot_text(e.message@), ..peripheral },
    }
}

/// Completes the operation `accepted` with the outcome that the radio stack
/// gave for it. The answer holds the status for the completion callback and,
/// on success, what the radio stack returned.
pub fn operation_completed<T>(
    peripheral: &mut CPeripheral,
    accepted: Accepted,
    outcome: Result<T, BleError>,
) -> (completion: (i32, Option<T>))
    ensures
        completion.0 == completion_status(outcome),
        completion.1 == (match outcome {
            Ok(value) => Some(value),
            Err(_) => None,
        }),
        final(peripheral)@ == completed_peripheral(old(peripheral)@, outcome),
{
    match outcome {
        Ok(value) => (SUCCESS, Some(value)),
        Err(e) => {
            peripheral.set_error(&e);
            (error_to_result(&e), None)
        },
    }
}

/// The handle of a device after a discovery of its services has completed:
/// success puts the services found in place of those known before, a failure
/// leaves its text in the error slot.
pub open spec fn discovered_peripheral(
    peripheral: PeripheralView,
    outcome: Result<Vec<Service>, BleError>,
) -> PeripheralView {
    match outcome {
        Ok(services) => PeripheralView { services: service_views(services@), ..peripheral },
        Err(e) => PeripheralView { last_error: slot_text(e.message@), ..peripheral },
    }
}

/// Completes a discovery with the outcome that the radio stack gave: the
/// services found on the device, or a failure. The answer is the status for
/// the completion callback.
pub fn services_discovered(
    peripheral: &mut CPeripheral,
    accepted: Accepted,
    outcome: Result<Vec<Service>, BleError>,
) -> (status: i32)
    ensures
        status == completion_status(outcome),
        final(peripheral)@ == discovered_peripheral(old(peripheral)@, outcome),
{
    match outcome {
        Ok(services) => {
            peripheral.set_services(services);
            SUCCESS
        },
        Err(e) => {
            peripheral.set_error(&e);
            error_to_result(&e)
        },
    }
}

/// The number that tells the host whether a device is connected: one for a
/// connected device, zero for any other and for a failed query.
pub open spec fn connected_flag(outcome: Result<bool, BleError>) -> i32 {
    match outcome {
        Ok(true) => 1,
        _ => 0,
    }
}

/// Completes a query for the connection with the outcome that the radio
/// stack gave. The answer holds the status and the flag for the completion
/// callback.
pub fn is_connected_completed(
    peripheral: &mut CPeripheral,
    accepted: Accepted,
    outcome: Result<bool, BleError>,
) -> (completion: (i32, i32))
    ensures
        completion.0 == completion_status(outcome),
        completion.1 == connected_flag(outcome),
        final(peripheral)@ == completed_peripheral(old(peripheral)@, outcome),
{
    let (status, connected) = operation_completed(peripheral, accepted, outcome);
    match connected {
        Some(true) => (status, 1),
        _ => (status, 0),
    }
}

/// The length of a notified value as the data callback takes it: the low 32
/// bits of the number of bytes, read as a signed integer.
pub fn notification_length(value: &[u8]) -> (length: i32)
    ensures
        length == value@.len() as i32,
{
    #[verifier::truncate]
    (value.len() as i32)
}

/// A call without a handle is refused with `INVALID_ARGUMENT`, and asks for
/// no operation.
pub proof fn lemma_null_handle_is_refused(operation: OperationView, submission: SubmissionView)
    requires
        submits(None, operation, submission),
    ensures
        submission.status == INVALID_ARGUMENT,
        submission.operation is None,
{
}

/// A write without a handle is refused with `INVALID_ARGUMENT`, and asks
/// for no operation, with data or without.
pub proof fn lemma_null_handle_refuses_write(
    after: Option<PeripheralView>,
    service_uuid: Uuid,
    uuid: Uuid,
    with_response: bool,
    data: Option<Seq<u8>>,
    submission: SubmissionView,
)
    requires
        submits_write(None, after, service_uuid, uuid, with_response, data, submission),
    ensures
        submission.status == INVALID_ARGUMENT,
        submission.operation is None,
{
}

/// A write on a handle whose module has no execution context is refused
/// with `INVALID_ARGUMENT` and leaves the handle as it was, with data or
/// without.
pub proof fn lemma_degraded_handle_refuses_write(
    peripheral: PeripheralView,
    after: Option<PeripheralView>,
    service_uuid: Uuid,
    uuid: Uuid,
    with_response: bool,
    data: Option<Seq<u8>>,
    submission: SubmissionView,
)
    requires
        !peripheral.runtime,
        submits_write(
            Some(peripheral),
            after,
            service_uuid,
            uuid,
            with_response,
            data,
            submission,
        ),
    ensures
        submission.status == INVALID_ARGUMENT,
        submission.operation is None,
        after == Some(peripheral),
{
}

/// A call holds an operation to perform exactly when its status is
/// `SUCCESS`; any other status is `INVALID_ARGUMENT`.
pub proof fn lemma_accepted_iff_success(
    peripheral: Option<PeripheralView>,
    operation: OperationView,
    submission: SubmissionView,
)
    requires
        submits(peripheral, operation, submission),
    ensures
        submission.operation is Some <==> submission.status == SUCCESS,
        submission.status == SUCCESS || submission.status == INVALID_ARGUMENT,
        submission.operation matches Some(accepted) ==> accepted == operation,
{
}

/// The completion of an operation has one status. It is `SUCCESS` exactly
/// when the radio stack succeeded, and the code of a failure otherwise:
/// never the one for the other.
pub proof fn lemma_completion_status<T>(outcome: Result<T, BleError>)
    ensures
        completion_status(outcome) == SUCCESS <==> outcome is Ok,
        outcome is Err <==> is_failure_code(completion_status(outcome) as int),
        completion_status(outcome) != INVALID_ARGUMENT,
{
    if let Err(e) = outcome {
        lemma_result_code_is_failure(e.kind);
    }
}

} // verus!

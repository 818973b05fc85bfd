//! Status codes of the C boundary and the failures of the radio stack that
//! they stand for.

use vstd::prelude::*;
use vstd::string::*;

verus! {

/// The call was accepted, or the operation completed.
pub const SUCCESS: i32 = 0;

/// A failure with no code of its own.
pub const ERROR_FAIL: i32 = 1;

/// A handle or an argument was missing or unusable; nothing was started.
pub const INVALID_ARGUMENT: i32 = 2;

pub const ERROR_PERMISSION_DENIED: i32 = 101;

pub const ERROR_DEVICE_NOT_FOUND: i32 = 102;

pub const ERROR_NOT_CONNECTED: i32 = 103;

pub const ERROR_UNEXPECTED_CALLBACK: i32 = 104;

pub const ERROR_UNEXPECTED_CHARACTERISTIC: i32 = 105;

pub const ERROR_NO_SUCH_CHARACTERISTIC: i32 = 106;

pub const ERROR_NOT_SUPPORTED: i32 = 107;

pub const ERROR_TIMED_OUT: i32 = 108;

pub const ERROR_UUID: i32 = 109;

pub const ERROR_INVALID_BD_ADDR: i32 = 110;

pub const ERROR_RUNTIME_ERROR: i32 = 111;

/// The text stored in an error slot when a message cannot be a C string.
pub const UNKNOWN_ERROR: &'static str = "Unknown error";

/// The ways in which the radio stack fails.
#[derive(Clone, Copy, Debug, PartialEq, Eq, Structural)]
pub enum Failure {
    PermissionDenied,
    DeviceNotFound,
    NotConnected,
    UnexpectedCallback,
    UnexpectedCharacteristic,
    NoSuchCharacteristic,
    NotSupported,
    TimedOut,
    Uuid,
    InvalidBDAddr,
    RuntimeError,
    Other,
}

/// A failure reported by the radio stack: its kind and the text it displays.
#[derive(Clone, Debug)]
pub struct BleError {
    pub kind: Failure,
    pub message: String,
}

/// The status code of each kind of failure.
pub open spec fn result_code(kind: Failure) -> i32 {
    match kind {
        Failure::PermissionDenied => ERROR_PERMISSION_DENIED,
        Failure::DeviceNotFound => ERROR_DEVICE_NOT_FOUND,
        Failure::NotConnected => ERROR_NOT_CONNECTED,
        Failure::UnexpectedCallback => ERROR_UNEXPECTED_CALLBACK,
        Failure::UnexpectedCharacteristic => ERROR_UNEXPECTED_CHARACTERISTIC,
        Failure::NoSuchCharacteristic => ERROR_NO_SUCH_CHARACTERISTIC,
        Failure::NotSupported => ERROR_NOT_SUPPORTED,
        Failure::TimedOut => ERROR_TIMED_OUT,
        Failure::Uuid => ERROR_UUID,
        Failure::InvalidBDAddr => ERROR_INVALID_BD_ADDR,
        Failure::RuntimeError => ERROR_RUNTIME_ERROR,
        Failure::Other => ERROR_FAIL,
    }
}

/// Whether `code` reports a failure of the radio stack.
pub open spec fn is_failure_code(code: int) -> bool {
    code == ERROR_FAIL || ERROR_PERMISSION_DENIED <= code <= ERROR_RUNTIME_ERROR
}

/// Whether a text holds a NUL character, which no C string can hold inside.
pub open spec fn has_nul(text: Seq<char>) -> bool {
    exists|i: int| 0 <= i < text.len() && text[i] == '\0'
}

/// The text an error slot keeps for a message: the message itself, or the
/// fallback where the message cannot be a C string.
pub open spec fn slot_text(message: Seq<char>) -> Seq<char> {
    if has_nul(message) {
        UNKNOWN_ERROR@
    } else {
        message
    }
}

/// The fallback text is itself free of NUL characters.
pub proof fn lemma_fallback_has_no_nul()
    ensures
        !has_nul(UNKNOWN_ERROR@),
{
    reveal_strlit("Unknown error");
}

/// Whatever the message, the text kept for it is free of NUL characters.
pub proof fn lemma_slot_text_has_no_nul(message: Seq<char>)
    ensures
        !has_nul(slot_text(message)),
{
    lemma_fallback_has_no_nul();
}

/// Every kind of failure has a code in the failure range, so none is taken
/// for success or for a rejected argument.
pub proof fn lemma_result_code_is_failure(kind: Failure)
    ensures
        is_failure_code(result_code(kind) as int),
        result_code(kind) != SUCCESS,
        result_code(kind) != INVALID_ARGUMENT,
{
}

/// Two kinds of failure never share a code.
pub proof fn lemma_result_code_injective(a: Failure, b: Failure)
    requires
        result_code(a) == result_code(b),
    ensures
        a == b,
{
}

/// Whether `text` holds a NUL character.
pub fn contains_nul(text: &str) -> (found: bool)
    ensures
        found == has_nul(text@),
{
    let n: usize = text.unicode_len();
    let mut i: usize = 0;
    while i < n
        invariant
            n == text@.len(),
            i <= n,
            forall|j: int| 0 <= j < i ==> text@[j] != '\0',
        decreases n - i,
    {
        if text.get_char(i) == '\0' {
            return true;
        }
        i = i + 1;
    }
    false
}

/// The text to keep for `message`.
pub fn sanitize(message: &str) -> (text: String)
    ensures
        text@ == slot_text(message@),
        !has_nul(text@),
{
    proof {
        lemma_slot_text_has_no_nul(message@);
    }
    if contains_nul(message) {
        UNKNOWN_ERROR.to_owned()
    } else {
        message.to_owned()
    }
}

/// The status code that reports `e`.
pub fn error_to_result(e: &BleError) -> (code: i32)
    ensures
        code == result_code(e.kind),
{
    match e.kind {
        Failure::PermissionDenied => ERROR_PERMISSION_DENIED,
        Failure::DeviceNotFound => ERROR_DEVICE_NOT_FOUND,
        Failure::NotConnected => ERROR_NOT_CONNECTED,
        Failure::UnexpectedCallback => ERROR_UNEXPECTED_CALLBACK,
        Failure::UnexpectedCharacteristic => ERROR_UNEXPECTED_CHARACTERISTIC,
        Failure::NoSuchCharacteristic => ERROR_NO_SUCH_CHARACTERISTIC,
        Failure::NotSupported => ERROR_NOT_SUPPORTED,
        Failure::TimedOut => ERROR_TIMED_OUT,
        Failure::Uuid => ERROR_UUID,
        Failure::InvalidBDAddr => ERROR_INVALID_BD_ADDR,
        Failure::RuntimeError => ERROR_RUNTIME_ERROR,
        Failure::Other => ERROR_FAIL,
    }
}

/// The text that an error slot keeps for `e`: what `e` displays, or
/// "Unknown error" where that holds a NUL character.
pub fn error_into_cstring(e: &BleError) -> (text: String)
    ensures
        text@ == slot_text(e.message@),
        !has_nul(text@),
{
    sanitize(e.message.as_str())
}

} // verus!

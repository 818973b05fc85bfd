//! The two handles behind the C boundary: the module, which stands for one
//! session with the radio stack, and the peripheral, which stands for one
//! remote device.
//!
//! A handle here is the plain state that the bridge decides on. The caller
//! keeps it beside the live objects of the radio stack, behind whatever lock
//! and reference count it shares them with. Every handle has an error slot,
//! which holds the text of its last failure and never a NUL character.

use crate::address::{compact, get_long_addr};
use crate::gatt::{service_views, Service, ServiceView};
use crate::status::{
    error_into_cstring, error_to_result, has_nul, lemma_result_code_is_failure, result_code,
    sanitize, slot_text, BleError, Failure, ERROR_FAIL, ERROR_RUNTIME_ERROR, INVALID_ARGUMENT,
    SUCCESS,
};
use vstd::prelude::*;
use vstd::string::*;

verus! {

/// The text of the failure that is raised when the radio stack lists no
/// adapter.
pub const NO_ADAPTERS: &'static str = "Runtime Error: No adapters found";

/// A module as a mathematical value.
pub struct ModuleView {
    /// Whether the execution context was started.
    pub runtime: bool,
    /// Whether an adapter was acquired.
    pub adapter: bool,
    pub last_error: Seq<char>,
}

/// The state of one session with the radio stack. A module may lack its
/// adapter, or its execution context and its adapter: it then still tells
/// why.
#[derive(Debug)]
pub struct CModule {
    runtime: bool,
    adapter: bool,
    last_error: String,
}

impl View for CModule {
    type V = ModuleView;

    closed spec fn view(&self) -> ModuleView {
        ModuleView {
            runtime: self.runtime,
            adapter: self.adapter,
            last_error: self.last_error@,
        }
    }
}

impl CModule {
    #[verifier::type_invariant]
    spec fn well_formed(self) -> bool {
        !has_nul(self.last_error@)
    }

    /// A module with the given parts and an empty error slot.
    pub fn new(runtime: bool, adapter: bool) -> (module: CModule)
        ensures
            module@ == (ModuleView { runtime, adapter, last_error: Seq::empty() }),
    {
        CModule { runtime, adapter, last_error: String::new() }
    }

    /// Whether the execution context was started.
    pub fn has_runtime(&self) -> (present: bool)
        ensures
            present == self@.runtime,
    {
        self.runtime
    }

    /// Whether an adapter was acquired.
    pub fn has_adapter(&self) -> (present: bool)
        ensures
            present == self@.adapter,
    {
        self.adapter
    }

    /// The text of the last failure.
    pub fn last_error(&self) -> (text: &String)
        ensures
            text@ == self@.last_error,
            !has_nul(text@),
    {
        proof {
            use_type_invariant(self);
        }
        &self.last_error
    }

    /// Stores `text` in the error slot, or the fallback where `text` holds a
    /// NUL character.
    pub fn set_error_string(&mut self, text: String)
        ensures
            final(self)@ == (ModuleView { last_error: slot_text(text@), ..old(self)@ }),
    {
        self.last_error = sanitize(text.as_str());
    }

    /// Stores `text` in the error slot, or the fallback where `text` holds a
    /// NUL character.
    pub fn set_error_str(&mut self, text: &str)
        ensures
            final(self)@ == (ModuleView { last_error: slot_text(text@), ..old(self)@ }),
    {
        self.last_error = sanitize(text);
    }

    /// Stores the text of `err` in the error slot.
    pub fn set_error(&mut self, err: &BleError)
        ensures
            final(self)@ == (ModuleView { last_error: slot_text(err.message@), ..old(self)@ }),
    {
        self.last_error = error_into_cstring(err);
    }
}

/// A peripheral as a mathematical value.
pub struct PeripheralView {
    /// Whether the module of the peripheral has an execution context.
    pub runtime: bool,
    /// The identifier that the platform gave the device.
    pub id: Seq<char>,
    /// The six bytes of the hardware address.
    pub address: Seq<u8>,
    /// The services known of the device: those that an advertisement named,
    /// or those that were discovered on it.
    pub services: Seq<ServiceView>,
    pub last_error: Seq<char>,
}

/// The state of one remote device.
#[derive(Debug)]
pub struct CPeripheral {
    runtime: bool,
    id: String,
    address: [u8; 6],
    services: Vec<Service>,
    last_error: String,
}

impl View for CPeripheral {
    type V = PeripheralView;

    closed spec fn view(&self) -> PeripheralView {
        PeripheralView {
            runtime: self.runtime,
            id: self.id@,
            address: self.address@,
            services: service_views(self.services@),
            last_error: self.last_error@,
        }
    }
}

impl CPeripheral {
    #[verifier::type_invariant]
    spec fn well_formed(self) -> bool {
        !has_nul(self.last_error@)
    }

    /// A peripheral of `module` with an empty error slot.
    pub fn new(module: &CModule, id: String, address: [u8; 6], services: Vec<Service>) -> (peripheral:
        CPeripheral)
        ensures
            peripheral@ == (PeripheralView {
                runtime: module@.runtime,
                id: id@,
                address: address@,
                services: service_views(services@),
                last_error: Seq::empty(),
            }),
    {
        CPeripheral { runtime: module.has_runtime(), id, address, services, last_error: String::new() }
    }

    /// Whether the module of the peripheral has an execution context.
    pub fn has_runtime(&self) -> (present: bool)
        ensures
            present == self@.runtime,
    {
        self.runtime
    }

    /// The identifier that the platform gave the device.
    pub fn id(&self) -> (id: &String)
        ensures
            id@ == self@.id,
    {
        &self.id
    }

    /// The six bytes of the hardware address.
    pub fn address(&self) -> (address: [u8; 6])
        ensures
            address@ == self@.address,
    {
        self.address
    }

    /// The services known of the device.
    pub fn services(&self) -> (services: &Vec<Service>)
        ensures
            service_views(services@) == self@.services,
    {
        &self.services
    }

    /// Puts `services` in place of the services known of the device.
    pub fn set_services(&mut self, services: Vec<Service>)
        ensures
            final(self)@ == (PeripheralView { services: service_views(services@), ..old(self)@ }),
    {
        proof {
            use_type_invariant(&*self);
        }
        self.services = services;
    }

    /// The text of the last failure.
    pub fn last_error(&self) -> (text: &String)
        ensures
            text@ == self@.last_error,
            !has_nul(text@),
    {
        proof {
            use_type_invariant(self);
        }
        &self.last_error
    }

    /// Stores `text` in the error slot, or the fallback where `text` holds a
    /// NUL character.
    pub fn set_peripheral_error_str(&mut self, text: &str)
        ensures
            final(self)@ == (PeripheralView { last_error: slot_text(text@), ..old(self)@ }),
    {
        self.last_error = sanitize(text);
    }

    /// Stores the text of `err` in the error slot.
    pub fn set_error(&mut self, err: &BleError)
        ensures
            final(self)@ == (PeripheralView { last_error: slot_text(err.message@), ..old(self)@ }),
    {
        self.last_error = error_into_cstring(err);
    }
}

/// Whether a module has what scanning and event delivery need: its execution
/// context and its adapter.
pub open spec fn module_ready(module: ModuleView) -> bool {
    module.runtime && module.adapter
}

/// Tests that `module` is there and has its execution context and its
/// adapter. The module is only read: a refusal leaves it as it was, so that
/// the reason why its start failed can still be asked for.
pub fn check_module(module: Option<&CModule>) -> (status: i32)
    ensures
        status == (if module is Some && module_ready(module->0@) {
            SUCCESS
        } else {
            INVALID_ARGUMENT
        }),
{
    match module {
        None => INVALID_ARGUMENT,
        Some(m) => {
            if m.has_adapter() && m.has_runtime() {
                SUCCESS
            } else {
                INVALID_ARGUMENT
            }
        },
    }
}

/// How the start of a session went.
#[derive(Debug)]
pub enum Startup<A> {
    /// The execution context did not start; the text says why.
    RuntimeFailed(String),
    /// The execution context started, and the radio stack failed to list its
    /// adapters.
    AdapterFailed(BleError),
    /// The execution context started, and the radio stack listed these
    /// adapters.
    Adapters(Vec<A>),
}

/// The module that a start leaves behind. It has an adapter exactly when the
/// radio stack listed one.
pub open spec fn started_module<A>(startup: Startup<A>) -> ModuleView {
    match startup {
        Startup::RuntimeFailed(text) => ModuleView {
            runtime: false,
            adapter: false,
            last_error: slot_text(text@),
        },
        Startup::AdapterFailed(err) => ModuleView {
            runtime: true,
            adapter: false,
            last_error: slot_text(err.message@),
        },
        Startup::Adapters(adapters) => if adapters@.len() > 0 {
            ModuleView { runtime: true, adapter: true, last_error: Seq::empty() }
        } else {
            ModuleView { runtime: true, adapter: false, last_error: NO_ADAPTERS@ }
        },
    }
}

/// The status that reports a start. An empty list of adapters is a runtime
/// error.
pub open spec fn startup_status<A>(startup: Startup<A>) -> i32 {
    match startup {
        Startup::RuntimeFailed(_) => ERROR_FAIL,
        Startup::AdapterFailed(err) => result_code(err.kind),
        Startup::Adapters(adapters) => if adapters@.len() > 0 {
            SUCCESS
        } else {
            ERROR_RUNTIME_ERROR
        },
    }
}

/// The adapter that a start acquires: the first that the radio stack listed.
pub open spec fn started_adapter<A>(startup: Startup<A>) -> Option<A> {
    match startup {
        Startup::Adapters(adapters) => if adapters@.len() > 0 {
            Some(adapters@[0])
        } else {
            None
        },
        _ => None,
    }
}

/// The adapter to use out of those that the radio stack lists: the first. With
/// none listed, the failure to raise: a runtime error.
pub fn get_central<A>(adapters: Vec<A>) -> (chosen: Result<A, BleError>)
    ensures
        adapters@.len() > 0 ==> chosen == Ok::<A, BleError>(adapters@[0]),
        adapters@.len() == 0 ==> {
            &&& chosen is Err
            &&& chosen->Err_0.kind == Failure::RuntimeError
            &&& chosen->Err_0.message@ == NO_ADAPTERS@
        },
{
    let mut adapters = adapters;
    if adapters.len() == 0 {
        Err(BleError { kind: Failure::RuntimeError, message: NO_ADAPTERS.to_owned() })
    } else {
        Ok(adapters.remove(0))
    }
}

/// Makes the module of a session from how its start went, with the status to
/// report and the adapter that was acquired. A module is made in every case,
/// so that a caller can ask it for the reason of a failure.
pub fn create_module<A>(startup: Startup<A>) -> (made: (CModule, i32, Option<A>))
    ensures
        made.0@ == started_module(startup),
        made.1 == startup_status(startup),
        made.2 == started_adapter(startup),
{
    match startup {
        Startup::RuntimeFailed(text) => {
            let mut module = CModule::new(false, false);
            module.set_error_string(text);
            (module, ERROR_FAIL, None)
        },
        Startup::AdapterFailed(err) => {
            let mut module = CModule::new(true, false);
            module.set_error(&err);
            let status = error_to_result(&err);
            (module, status, None)
        },
        Startup::Adapters(adapters) => match get_central(adapters) {
            Ok(adapter) => (CModule::new(true, true), SUCCESS, Some(adapter)),
            Err(err) => {
                proof {
                    reveal_strlit("Runtime Error: No adapters found");
                }
                let mut module = CModule::new(true, false);
                module.set_error(&err);
                let status = error_to_result(&err);
                (module, status, None)
            },
        },
    }
}

/// A start reports `SUCCESS` exactly when it leaves a module with its
/// execution context and its adapter. Any other start leaves a module that
/// scanning and event delivery refuse, and a start whose list of adapters
/// was empty reports a runtime error.
pub proof fn lemma_start_succeeds_iff_ready<A>(startup: Startup<A>)
    ensures
        startup_status(startup) == SUCCESS <==> module_ready(started_module(startup)),
        module_ready(started_module(startup)) <==> started_adapter(startup) is Some,
        startup matches Startup::Adapters(adapters) && adapters@.len() == 0 ==> startup_status(
            startup,
        ) == ERROR_RUNTIME_ERROR,
{
    if let Startup::AdapterFailed(err) = startup {
        lemma_result_code_is_failure(err.kind);
    }
}

/// The text of the last failure of `module`; none for no module.
pub fn get_last_module_error<'a>(module: Option<&'a CModule>) -> (text: Option<&'a String>)
    ensures
        module is None ==> text is None,
        module matches Some(m) ==> text matches Some(t) && t@ == m@.last_error && !has_nul(t@),
{
    match module {
        None => None,
        Some(m) => Some(m.last_error()),
    }
}

/// The text of the last failure of `peripheral`; none for no peripheral.
pub fn peripheral_get_last_error<'a>(peripheral: Option<&'a CPeripheral>) -> (text: Option<
    &'a String,
>)
    ensures
        peripheral is None ==> text is None,
        peripheral matches Some(p) ==> text matches Some(t) && t@ == p@.last_error && !has_nul(t@),
{
    match peripheral {
        None => None,
        Some(p) => Some(p.last_error()),
    }
}

/// The identifier of `peripheral`, with the status to report. Without a
/// peripheral there is no identifier to hand out.
pub fn peripheral_get_id(peripheral: Option<&CPeripheral>) -> (answer: (i32, Option<String>))
    ensures
        peripheral is None ==> answer.0 == INVALID_ARGUMENT && answer.1 is None,
        peripheral matches Some(p) ==> answer.0 == SUCCESS && answer.1 is Some && answer.1->0@
            == p@.id,
{
    match peripheral {
        None => (INVALID_ARGUMENT, None),
        Some(p) => (SUCCESS, Some(p.id().clone())),
    }
}

/// The compacted hardware address of `peripheral`, with the status to
/// report. Without a peripheral there is no address to hand out.
pub fn peripheral_get_address(peripheral: Option<&CPeripheral>) -> (answer: (i32, Option<u64>))
    ensures
        peripheral is None ==> answer == (INVALID_ARGUMENT, None::<u64>),
        peripheral matches Some(p) ==> answer.0 == SUCCESS && answer.1 == Some(
            compact(p@.address) as u64,
        ),
{
    match peripheral {
        None => (INVALID_ARGUMENT, None),
        Some(p) => (SUCCESS, Some(get_long_addr(p.address()))),
    }
}

/// Releases whatever `handle` holds. There is nothing to release in no
/// handle, and a release cannot fail.
pub fn free_ptr<T>(handle: Option<T>) -> (status: i32)
    ensures
        status == SUCCESS,
{
    match handle {
        None => SUCCESS,
        Some(_) => SUCCESS,
    }
}

/// Releases a module.
pub fn free_module(module: Option<CModule>) -> (status: i32)
    ensures
        status == SUCCESS,
{
    free_ptr(module)
}

/// Releases a peripheral.
pub fn free_peripheral(peripheral: Option<CPeripheral>) -> (status: i32)
    ensures
        status == SUCCESS,
{
    free_ptr(peripheral)
}

/// Releases a text that was handed out.
pub fn free_string(s: Option<String>) -> (status: i32)
    ensures
        status == SUCCESS,
{
    free_ptr(s)
}

} // verus!

//! Operations on the target as state machines. Each state waits for the
//! reply to one request; [`OperationView::step`] says where every reply
//! leads.

use crate::codec::{add_offset, decode, decode_pointer, pointer_of, relative, relative_value, wrapped_sum, Value, ValueKind};
use crate::error::MemoryError;
use crate::module::{assembled, Module, ModuleInformation, ModuleView};
use crate::process::{first_module, first_process, found_base, found_process, is_page_readable};
use crate::protocol::{page_readable, Reply, ReplyView, Request, RequestView, PAGE_EXECUTE_READWRITE, PAGE_READWRITE, POINTER_WINDOW};
use core::marker::PhantomData;
use vstd::prelude::*;

verus! {

/// An open process. It is not copied: closing it uses it up.
#[derive(Debug, PartialEq, Eq)]
pub struct ProcessHandle {
    raw: usize,
}

impl View for ProcessHandle {
    type V = usize;

    closed spec fn view(&self) -> usize {
        self.raw
    }
}

impl ProcessHandle {
    /// Takes over a handle that the operating system gave. Zero is no
    /// handle.
    pub fn from_raw(raw: usize) -> (r: Option<ProcessHandle>)
        ensures
            raw == 0 ==> r is None,
            raw != 0 ==> r is Some && r->0@ == raw,
    {
        if raw == 0 {
            None
        } else {
            Some(ProcessHandle { raw })
        }
    }

    /// The handle as the operating system knows it.
    pub fn raw(&self) -> (raw: usize)
        ensures
            raw == self@,
    {
        self.raw
    }
}

/// In which form a read hands over what it copied.
#[derive(Clone, Copy, Debug, PartialEq, Eq, Structural)]
pub enum Form {
    /// The bytes as they are.
    Bytes,
    /// A value of the given kind.
    Value(ValueKind),
    /// A value of the given kind, taken relative to a module's base and
    /// moved by `extra`.
    Relative { kind: ValueKind, base_address: usize, extra: usize },
}

/// What a read copies, and in which form it hands it over.
#[derive(Clone, Copy, Debug, PartialEq, Eq, Structural)]
pub struct ReadPlan {
    pub handle: usize,
    pub address: usize,
    pub size: usize,
    pub form: Form,
}

/// What an operation gave.
#[derive(Debug, PartialEq, Eq)]
pub enum Outcome {
    /// The operation was carried out and gives nothing back.
    Done,
    /// The process was opened.
    Handle(ProcessHandle),
    /// The bytes that were read.
    Bytes(Vec<u8>),
    /// The value that was read.
    Value(Value),
    /// The address at the end of a pointer chain.
    Address(usize),
    /// The read went well, but what was read stands for no value.
    Absent,
    /// The snapshot of a module.
    Module(Module),
    /// The identifier of a process.
    ProcessId(u32),
}

/// An outcome as a mathematical value.
pub enum OutcomeView {
    Done,
    Handle(usize),
    Bytes(Seq<u8>),
    Value(Value),
    Address(usize),
    Absent,
    Module(ModuleView),
    ProcessId(u32),
}

impl View for Outcome {
    type V = OutcomeView;

    open spec fn view(&self) -> OutcomeView {
        match *self {
            Outcome::Done => OutcomeView::Done,
            Outcome::Handle(handle) => OutcomeView::Handle(handle@),
            Outcome::Bytes(bytes) => OutcomeView::Bytes(bytes@),
            Outcome::Value(value) => OutcomeView::Value(value),
            Outcome::Address(address) => OutcomeView::Address(address),
            Outcome::Absent => OutcomeView::Absent,
            Outcome::Module(module) => OutcomeView::Module(module@),
            Outcome::ProcessId(id) => OutcomeView::ProcessId(id),
        }
    }
}

/// How an operation ended, as a mathematical value.
pub type Ending = Result<OutcomeView, MemoryError>;

/// The view of an ending.
pub open spec fn ending_of(result: Result<Outcome, MemoryError>) -> Ending {
    match result {
        Ok(outcome) => Ok(outcome@),
        Err(error) => Err(error),
    }
}

/// The states of an operation. Every state but `Finished` waits for the
/// reply to the request that [`OperationView::request`] names.
pub enum OperationView {
    /// Opening a process.
    Opening { desired_access: u32, process_id: u32 },
    /// Opening a process in order to patch it and close it again.
    OpeningToPatch { desired_access: u32, process_id: u32, address: usize, bytes: Seq<u8> },
    /// Releasing the handle; `ending` is then the end of the operation.
    Closing { handle: usize, ending: Ending },
    /// Asking whether the page to read is readable as it is.
    Querying { plan: ReadPlan },
    /// Making the page to read readable.
    Widening { plan: ReadPlan },
    /// Copying out of the target; `previous` is the protection to put back.
    Copying { plan: ReadPlan, previous: Option<u32> },
    /// Making the range to patch writable.
    Unprotecting { handle: usize, address: usize, bytes: Seq<u8>, close: bool },
    /// Copying into the target; `previous` is the protection to put back.
    Writing { handle: usize, address: usize, bytes: Seq<u8>, previous: Option<u32>, close: bool },
    /// Putting the protection back that was in force before.
    Restoring {
        handle: usize,
        address: usize,
        size: usize,
        protection: u32,
        ending: Ending,
        close: bool,
    },
    /// Asking for the pointer width of the target.
    Sizing { handle: usize, address: usize, offsets: Seq<usize> },
    /// Reading the pointer at `address`; `offsets` are still to be applied.
    Walking { handle: usize, address: usize, offsets: Seq<usize>, width: usize },
    /// Listing the processes to find the one of the name.
    FindingProcess { name: Seq<u8> },
    /// Listing the modules of a process to find the one of the name.
    FindingModule { process_id: u32, name: Seq<u8> },
    /// Asking where a module is loaded and how large it is.
    Locating { handle: usize, module: usize },
    /// Copying the image of a module.
    Imaging { handle: usize, module: usize, name: Seq<u8>, base_address: usize, image_size: u32 },
    /// Nothing is left to do.
    Finished { ending: Ending },
}

/// What a read hands over once `bytes` were copied.
pub open spec fn read_ending(plan: ReadPlan, bytes: Seq<u8>) -> Ending {
    if bytes.len() != plan.size {
        Err(MemoryError::ReadFailure)
    } else {
        match plan.form {
            Form::Bytes => Ok(OutcomeView::Bytes(bytes)),
            Form::Value(kind) => match kind.decoded(bytes) {
                Some(value) => Ok(OutcomeView::Value(value)),
                None => Err(MemoryError::ReadFailure),
            },
            Form::Relative { kind, base_address, extra } => match kind.decoded(bytes) {
                Some(raw) => match relative(raw, base_address, extra) {
                    Some(value) => Ok(OutcomeView::Value(value)),
                    None => Ok(OutcomeView::Absent),
                },
                None => Err(MemoryError::ReadFailure),
            },
        }
    }
}

/// What a snapshot gives once `data` was copied.
pub open spec fn snapshot_ending(
    module: usize,
    name: Seq<u8>,
    base_address: usize,
    size: u32,
    data: Seq<u8>,
) -> Ending {
    match assembled(module, name, base_address, size, data) {
        Ok(snapshot) => Ok(OutcomeView::Module(snapshot)),
        Err(error) => Err(error),
    }
}

/// The state that ends an operation with `ending`, after the handle was
/// released where the operation had opened it itself.
pub open spec fn wind_up(handle: usize, ending: Ending, close: bool) -> OperationView {
    if close {
        OperationView::Closing { handle, ending }
    } else {
        OperationView::Finished { ending }
    }
}

/// The later of two failures does not hide the earlier one.
pub open spec fn or_failure(ending: Ending, error: MemoryError) -> Ending {
    match ending {
        Ok(_) => Err(error),
        Err(earlier) => Err(earlier),
    }
}

impl OperationView {
    /// The request whose reply the operation waits for; none once it has
    /// finished.
    pub open spec fn request(self) -> Option<RequestView> {
        match self {
            OperationView::Opening { desired_access, process_id } => Some(
                RequestView::OpenProcess { desired_access, process_id },
            ),
            OperationView::OpeningToPatch { desired_access, process_id, .. } => Some(
                RequestView::OpenProcess { desired_access, process_id },
            ),
            OperationView::Closing { handle, .. } => Some(RequestView::CloseHandle { handle }),
            OperationView::Querying { plan } => Some(
                RequestView::QueryRegion { handle: plan.handle, address: plan.address },
            ),
            OperationView::Widening { plan } => Some(
                RequestView::SetProtection {
                    handle: plan.handle,
                    address: plan.address,
                    size: POINTER_WINDOW,
                    protection: PAGE_READWRITE,
                },
            ),
            OperationView::Copying { plan, .. } => Some(
                RequestView::ReadBytes {
                    handle: plan.handle,
                    address: plan.address,
                    size: plan.size,
                },
            ),
            OperationView::Unprotecting { handle, address, bytes, .. } => Some(
                RequestView::SetProtection {
                    handle,
                    address,
                    size: bytes.len() as usize,
                    protection: PAGE_EXECUTE_READWRITE,
                },
            ),
            OperationView::Writing { handle, address, bytes, .. } => Some(
                RequestView::WriteBytes { handle, address, bytes },
            ),
            OperationView::Restoring { handle, address, size, protection, .. } => Some(
                RequestView::SetProtection { handle, address, size, protection },
            ),
            OperationView::Sizing { handle, .. } => Some(RequestView::QueryBitness { handle }),
            OperationView::Walking { handle, address, width, .. } => Some(
                RequestView::ReadBytes { handle, address, size: width },
            ),
            OperationView::FindingProcess { .. } => Some(RequestView::ListProcesses),
            OperationView::FindingModule { process_id, .. } => Some(
                RequestView::ListModules { process_id },
            ),
            OperationView::Locating { handle, module } => Some(
                RequestView::QueryModule { handle, module },
            ),
            OperationView::Imaging { handle, base_address, image_size, .. } => Some(
                RequestView::ReadBytes {
                    handle,
                    address: base_address,
                    size: image_size as usize,
                },
            ),
            OperationView::Finished { .. } => None,
        }
    }

    /// How the operation ended, once it has.
    pub open spec fn ending(self) -> Option<Ending> {
        match self {
            OperationView::Finished { ending } => Some(ending),
            _ => None,
        }
    }

    /// The state after `reply`. A reply of the wrong kind counts as the
    /// failure of the call that was asked for.
    pub open spec fn step(self, reply: ReplyView) -> OperationView {
        match self {
            OperationView::Opening { .. } => match reply {
                ReplyView::Handle(handle) if handle != 0 => OperationView::Finished {
                    ending: Ok(OutcomeView::Handle(handle)),
                },
                _ => OperationView::Finished {
                    ending: Err(MemoryError::HandleAcquisitionFailure),
                },
            },
            OperationView::OpeningToPatch { address, bytes, .. } => match reply {
                ReplyView::Handle(handle) if handle != 0 => OperationView::Unprotecting {
                    handle,
                    address,
                    bytes,
                    close: true,
                },
                _ => OperationView::Finished {
                    ending: Err(MemoryError::HandleAcquisitionFailure),
                },
            },
            OperationView::Closing { ending, .. } => OperationView::Finished { ending },
            OperationView::Querying { plan } => match reply {
                ReplyView::Region(info) => if page_readable(info) {
                    OperationView::Copying { plan, previous: None }
                } else {
                    OperationView::Widening { plan }
                },
                _ => OperationView::Finished { ending: Err(MemoryError::MemoryQueryFailure) },
            },
            OperationView::Widening { plan } => match reply {
                ReplyView::Protection(previous) => OperationView::Copying {
                    plan,
                    previous: Some(previous),
                },
                _ => OperationView::Finished {
                    ending: Err(MemoryError::ProtectionChangeFailure),
                },
            },
            OperationView::Copying { plan, previous } => {
                let ending = match reply {
                    ReplyView::Bytes(bytes) => read_ending(plan, bytes),
                    _ => Err(MemoryError::ReadFailure),
                };
                match previous {
                    Some(protection) => OperationView::Restoring {
                        handle: plan.handle,
                        address: plan.address,
                        size: POINTER_WINDOW,
                        protection,
                        ending,
                        close: false,
                    },
                    None => OperationView::Finished { ending },
                }
            },
            OperationView::Unprotecting { handle, address, bytes, close } => match reply {
                ReplyView::Protection(previous) => OperationView::Writing {
                    handle,
                    address,
                    bytes,
                    previous: Some(previous),
                    close,
                },
                _ => wind_up(handle, Err(MemoryError::ProtectionChangeFailure), close),
            },
            OperationView::Writing { handle, address, bytes, previous, close } => {
                let ending = match reply {
                    ReplyView::Written => Ok(OutcomeView::Done),
                    _ => Err(MemoryError::WriteFailure),
                };
                match previous {
                    Some(protection) => OperationView::Restoring {
                        handle,
                        address,
                        size: bytes.len() as usize,
                        protection,
                        ending,
                        close,
                    },
                    None => wind_up(handle, ending, close),
                }
            },
            OperationView::Restoring { handle, ending, close, .. } => match reply {
                ReplyView::Protection(_) => wind_up(handle, ending, close),
                _ => wind_up(
                    handle,
                    or_failure(ending, MemoryError::ProtectionChangeFailure),
                    close,
                ),
            },
            OperationView::Sizing { handle, address, offsets } => match reply {
                ReplyView::Bitness(is_32_bit) => if offsets.len() == 0 {
                    OperationView::Finished { ending: Ok(OutcomeView::Address(address)) }
                } else {
                    OperationView::Walking {
                        handle,
                        address,
                        offsets,
                        width: if is_32_bit {
                            4
                        } else {
                            8
                        },
                    }
                },
                _ => OperationView::Finished { ending: Err(MemoryError::BitnessQueryFailure) },
            },
            OperationView::Walking { handle, address, offsets, width } => if offsets.len() == 0 {
                OperationView::Finished { ending: Ok(OutcomeView::Address(address)) }
            } else {
                match reply {
                    ReplyView::Bytes(bytes) if bytes.len() == width && pointer_of(bytes) is Some => {
                        let next = wrapped_sum(pointer_of(bytes)->0, offsets[0]);
                        if offsets.len() == 1 {
                            OperationView::Finished { ending: Ok(OutcomeView::Address(next)) }
                        } else {
                            OperationView::Walking {
                                handle,
                                address: next,
                                offsets: offsets.drop_first(),
                                width,
                            }
                        }
                    },
                    _ => OperationView::Finished { ending: Err(MemoryError::ReadFailure) },
                }
            },
            OperationView::FindingProcess { name } => match reply {
                ReplyView::Processes(processes) => match found_process(processes, name) {
                    Some(id) => OperationView::Finished { ending: Ok(OutcomeView::ProcessId(id)) },
                    None => OperationView::Finished { ending: Err(MemoryError::ProcessNotFound) },
                },
                _ => OperationView::Finished { ending: Err(MemoryError::ProcessNotFound) },
            },
            OperationView::FindingModule { name, .. } => match reply {
                ReplyView::Modules(modules) => match found_base(modules, name) {
                    Some(base) => OperationView::Finished {
                        ending: Ok(OutcomeView::Address(base)),
                    },
                    None => OperationView::Finished { ending: Err(MemoryError::ModuleNotFound) },
                },
                _ => OperationView::Finished { ending: Err(MemoryError::ModuleNotFound) },
            },
            OperationView::Locating { handle, module } => match reply {
                ReplyView::Module { name, base_address, size } => OperationView::Imaging {
                    handle,
                    module,
                    name,
                    base_address,
                    image_size: size,
                },
                _ => OperationView::Finished { ending: Err(MemoryError::ModuleNotFound) },
            },
            OperationView::Imaging { module, name, base_address, image_size, .. } => match reply {
                ReplyView::Bytes(data) => OperationView::Finished {
                    ending: snapshot_ending(module, name, base_address, image_size, data),
                },
                _ => OperationView::Finished { ending: Err(MemoryError::ReadFailure) },
            },
            OperationView::Finished { ending } => OperationView::Finished { ending },
        }
    }

    /// A bound on the number of requests that the operation still makes.
    pub open spec fn steps_left(self) -> nat {
        match self {
            OperationView::Opening { .. } => 1,
            OperationView::OpeningToPatch { .. } => 6,
            OperationView::Closing { .. } => 1,
            OperationView::Querying { .. } => 5,
            OperationView::Widening { .. } => 4,
            OperationView::Copying { .. } => 3,
            OperationView::Unprotecting { .. } => 5,
            OperationView::Writing { .. } => 4,
            OperationView::Restoring { .. } => 2,
            OperationView::Sizing { offsets, .. } => offsets.len() + 2,
            OperationView::Walking { offsets, .. } => offsets.len() + 1,
            OperationView::FindingProcess { .. } => 1,
            OperationView::FindingModule { .. } => 1,
            OperationView::Locating { .. } => 2,
            OperationView::Imaging { .. } => 1,
            OperationView::Finished { .. } => 0,
        }
    }
}

/// Every reply brings an unfinished operation nearer to its end, and an
/// operation has finished exactly when it asks for nothing more.
pub proof fn lemma_step_makes_progress(operation: OperationView, reply: ReplyView)
    ensures
        operation.request() is None <==> operation.ending() is Some,
        operation.request() is None <==> operation.steps_left() == 0,
        operation.request() is Some ==> operation.step(reply).steps_left()
            < operation.steps_left(),
        operation.request() is None ==> operation.step(reply) == operation,
{
}

/// A protection that was widened is put back whatever the copy gave: the
/// reply to the copy, be it a failure, leads to the request that sets the
/// range to the protection that the widening had found, and the operation
/// does not end before that request was answered.
pub proof fn law_restoration_is_never_skipped(operation: OperationView, reply: ReplyView)
    ensures
        operation matches OperationView::Copying { plan, previous: Some(protection) }
            ==> operation.step(reply).request() == Some(
            RequestView::SetProtection {
                handle: plan.handle,
                address: plan.address,
                size: POINTER_WINDOW,
                protection,
            },
        ),
        operation matches OperationView::Writing {
            handle,
            address,
            bytes,
            previous: Some(protection),
            ..
        } ==> operation.step(reply).request() == Some(
            RequestView::SetProtection {
                handle,
                address,
                size: bytes.len() as usize,
                protection,
            },
        ),
{
}

/// The handle that an operation has opened itself and still has to
/// release.
pub open spec fn owed_handle(operation: OperationView) -> Option<usize> {
    match operation {
        OperationView::Unprotecting { handle, close, .. } if close => Some(handle),
        OperationView::Writing { handle, close, .. } if close => Some(handle),
        OperationView::Restoring { handle, close, .. } if close => Some(handle),
        OperationView::Closing { handle, .. } => Some(handle),
        _ => None,
    }
}

/// An operation that has opened a process itself does not end before it
/// has asked to release the handle: whatever the replies are, the handle
/// stays owed until the request to close it is the pending one, and the
/// operation ends only with the reply to that request.
pub proof fn law_opened_handle_is_released(operation: OperationView, reply: ReplyView)
    ensures
        operation is OpeningToPatch ==> match reply {
            ReplyView::Handle(handle) if handle != 0 => owed_handle(operation.step(reply)) == Some(
                handle,
            ),
            _ => operation.step(reply).ending() is Some,
        },
        owed_handle(operation) is Some && !(operation is Closing) ==> owed_handle(
            operation.step(reply),
        ) == owed_handle(operation),
        operation is Closing ==> operation.request() == Some(
            RequestView::CloseHandle { handle: owed_handle(operation)->0 },
        ) && operation.step(reply).ending() is Some,
{
}

enum Stage {
    Opening { desired_access: u32, process_id: u32 },
    OpeningToPatch { desired_access: u32, process_id: u32, address: usize, bytes: Vec<u8> },
    Closing { handle: usize, result: Result<Outcome, MemoryError> },
    Querying { plan: ReadPlan },
    Widening { plan: ReadPlan },
    Copying { plan: ReadPlan, previous: Option<u32> },
    Unprotecting { handle: usize, address: usize, bytes: Vec<u8>, close: bool },
    Writing { handle: usize, address: usize, bytes: Vec<u8>, previous: Option<u32>, close: bool },
    Restoring {
        handle: usize,
        address: usize,
        size: usize,
        protection: u32,
        result: Result<Outcome, MemoryError>,
        close: bool,
    },
    Sizing { handle: usize, address: usize, offsets: Vec<usize> },
    Walking { handle: usize, address: usize, offsets: Vec<usize>, next: usize, width: usize },
    FindingProcess { name: Vec<u8> },
    FindingModule { process_id: u32, name: Vec<u8> },
    Locating { handle: usize, module: usize },
    Imaging { handle: usize, module: usize, information: ModuleInformation },
    Finished { result: Result<Outcome, MemoryError> },
}

/// An operation on the target, somewhere between its start and its end.
/// An operation on an open process borrows the handle: while it lives, the
/// handle cannot be handed to [`Operation::closing`].
pub struct Operation<'a> {
    stage: Stage,
    scope: PhantomData<&'a ProcessHandle>,
}

/// The offsets of a chain that are still to be applied.
spec fn remaining(offsets: Seq<usize>, next: usize) -> Seq<usize> {
    if next <= offsets.len() {
        offsets.skip(next as int)
    } else {
        Seq::empty()
    }
}

/// The state that a stage stands for.
spec fn state_of(stage: Stage) -> OperationView {
    match stage {
            Stage::Opening { desired_access, process_id } => OperationView::Opening {
                desired_access,
                process_id,
            },
            Stage::OpeningToPatch { desired_access, process_id, address, bytes } => {
                OperationView::OpeningToPatch { desired_access, process_id, address, bytes: bytes@ }
            },
            Stage::Closing { handle, result } => OperationView::Closing {
                handle,
                ending: ending_of(result),
            },
            Stage::Querying { plan } => OperationView::Querying { plan },
            Stage::Widening { plan } => OperationView::Widening { plan },
            Stage::Copying { plan, previous } => OperationView::Copying { plan, previous },
            Stage::Unprotecting { handle, address, bytes, close } => OperationView::Unprotecting {
                handle,
                address,
                bytes: bytes@,
                close,
            },
            Stage::Writing { handle, address, bytes, previous, close } => OperationView::Writing {
                handle,
                address,
                bytes: bytes@,
                previous,
                close,
            },
            Stage::Restoring { handle, address, size, protection, result, close } => {
                OperationView::Restoring {
                    handle,
                    address,
                    size,
                    protection,
                    ending: ending_of(result),
                    close,
                }
            },
            Stage::Sizing { handle, address, offsets } => OperationView::Sizing {
                handle,
                address,
                offsets: offsets@,
            },
            Stage::Walking { handle, address, offsets, next, width } => OperationView::Walking {
                handle,
                address,
                offsets: remaining(offsets@, next),
                width,
            },
            Stage::FindingProcess { name } => OperationView::FindingProcess { name: name@ },
            Stage::FindingModule { process_id, name } => OperationView::FindingModule {
                process_id,
                name: name@,
            },
            Stage::Locating { handle, module } => OperationView::Locating { handle, module },
            Stage::Imaging { handle, module, information } => OperationView::Imaging {
                handle,
                module,
                name: information.name@,
                base_address: information.base_address,
                image_size: information.size,
            },
            Stage::Finished { result } => OperationView::Finished { ending: ending_of(result) },
    }
}

impl<'a> View for Operation<'a> {
    type V = OperationView;

    closed spec fn view(&self) -> OperationView {
        state_of(self.stage)
    }
}

fn copy_bytes(bytes: &Vec<u8>) -> (copy: Vec<u8>)
    ensures
        copy@ == bytes@,
{
    let mut copy: Vec<u8> = Vec::new();
    let mut i: usize = 0;
    while i < bytes.len()
        invariant
            i <= bytes@.len(),
            copy@ == bytes@.take(i as int),
        decreases bytes@.len() - i,
    {
        copy.push(bytes[i]);
        assert(copy@ =~= bytes@.take(i + 1));
        i = i + 1;
    }
    assert(bytes@.take(bytes@.len() as int) =~= bytes@);
    copy
}

fn read_result(plan: ReadPlan, bytes: Vec<u8>) -> (result: Result<Outcome, MemoryError>)
    ensures
        ending_of(result) == read_ending(plan, bytes@),
{
    if bytes.len() != plan.size {
        return Err(MemoryError::ReadFailure);
    }
    match plan.form {
        Form::Bytes => Ok(Outcome::Bytes(bytes)),
        Form::Value(kind) => match decode(kind, bytes.as_slice()) {
            Some(value) => Ok(Outcome::Value(value)),
            None => Err(MemoryError::ReadFailure),
        },
        Form::Relative { kind, base_address, extra } => match decode(kind, bytes.as_slice()) {
            Some(raw) => match relative_value(raw, base_address, extra) {
                Some(value) => Ok(Outcome::Value(value)),
                None => Ok(Outcome::Absent),
            },
            None => Err(MemoryError::ReadFailure),
        },
    }
}

fn winding_up(handle: usize, result: Result<Outcome, MemoryError>, close: bool) -> (stage: Stage)
    ensures
        state_of(stage) == wind_up(handle, ending_of(result), close),
{
    if close {
        Stage::Closing { handle, result }
    } else {
        Stage::Finished { result }
    }
}

impl<'a> Operation<'a> {
    fn at(stage: Stage) -> (operation: Operation<'a>)
        ensures
            operation@ == state_of(stage),
    {
        Operation { stage, scope: PhantomData }
    }

    /// An operation that opens a process and ends with its handle.
    pub fn opening(desired_access: u32, process_id: u32) -> (operation: Operation<'a>)
        ensures
            operation@ == (OperationView::Opening { desired_access, process_id }),
    {
        Operation::at(Stage::Opening { desired_access, process_id })
    }

    /// An operation that opens a process, patches `bytes` in at `address`
    /// and releases the handle again, whatever became of the patch.
    pub fn opening_to_patch(
        desired_access: u32,
        process_id: u32,
        address: usize,
        bytes: Vec<u8>,
    ) -> (operation: Operation<'a>)
        ensures
            operation@ == (OperationView::OpeningToPatch {
                desired_access,
                process_id,
                address,
                bytes: bytes@,
            }),
    {
        Operation::at(Stage::OpeningToPatch { desired_access, process_id, address, bytes })
    }

    /// An operation that releases a handle. The handle is used up: no
    /// operation that borrows it can still be alive.
    pub fn closing(handle: ProcessHandle) -> (operation: Operation<'a>)
        ensures
            operation@ == (OperationView::Closing {
                handle: handle@,
                ending: Ok(OutcomeView::Done),
            }),
    {
        Operation::at(Stage::Closing { handle: handle.raw, result: Ok(Outcome::Done) })
    }

    /// A read that first asks whether the page is readable, widens its
    /// protection where it is not, and puts the protection back afterwards.
    pub fn guarded_read(handle: &'a ProcessHandle, address: usize, size: usize, form: Form) -> (
        operation: Operation<'a>)
        ensures
            operation@ == (OperationView::Querying {
                plan: ReadPlan { handle: handle@, address, size, form },
            }),
    {
        Operation::at(
            Stage::Querying { plan: ReadPlan { handle: handle.raw(), address, size, form } },
        )
    }

    /// A read that copies at once.
    pub fn plain_read(handle: &'a ProcessHandle, address: usize, size: usize, form: Form) -> (
        operation: Operation<'a>)
        ensures
            operation@ == (OperationView::Copying {
                plan: ReadPlan { handle: handle@, address, size, form },
                previous: None,
            }),
    {
        Operation::at(
            Stage::Copying {
                plan: ReadPlan { handle: handle.raw(), address, size, form },
                previous: None,
            },
        )
    }

    /// A write that copies at once.
    pub fn plain_write(handle: &'a ProcessHandle, address: usize, bytes: Vec<u8>) -> (operation:
        Operation<'a>)
        ensures
            operation@ == (OperationView::Writing {
                handle: handle@,
                address,
                bytes: bytes@,
                previous: None,
                close: false,
            }),
    {
        Operation::at(
            Stage::Writing { handle: handle.raw(), address, bytes, previous: None, close: false },
        )
    }

    /// A write that first makes the range writable and puts the protection
    /// back afterwards.
    pub fn guarded_write(handle: &'a ProcessHandle, address: usize, bytes: Vec<u8>) -> (operation:
        Operation<'a>)
        ensures
            operation@ == (OperationView::Unprotecting {
                handle: handle@,
                address,
                bytes: bytes@,
                close: false,
            }),
    {
        Operation::at(Stage::Unprotecting { handle: handle.raw(), address, bytes, close: false })
    }

    /// A walk along a pointer chain. Without offsets there is nothing to
    /// walk: the operation has finished with `address`.
    pub fn walk(handle: &'a ProcessHandle, address: usize, offsets: Vec<usize>) -> (operation:
        Operation<'a>)
        ensures
            operation@ == if offsets@.len() == 0 {
                OperationView::Finished { ending: Ok(OutcomeView::Address(address)) }
            } else {
                OperationView::Sizing { handle: handle@, address, offsets: offsets@ }
            },
    {
        if offsets.len() == 0 {
            Operation::at(Stage::Finished { result: Ok(Outcome::Address(address)) })
        } else {
            Operation::at(Stage::Sizing { handle: handle.raw(), address, offsets })
        }
    }

    /// The search for a running process of the name.
    pub fn finding_process(name: Vec<u8>) -> (operation: Operation<'a>)
        ensures
            operation@ == (OperationView::FindingProcess { name: name@ }),
    {
        Operation::at(Stage::FindingProcess { name })
    }

    /// The search for a module of the name among those of a process.
    pub fn finding_module(process_id: u32, name: Vec<u8>) -> (operation: Operation<'a>)
        ensures
            operation@ == (OperationView::FindingModule { process_id, name: name@ }),
    {
        Operation::at(Stage::FindingModule { process_id, name })
    }

    /// The snapshot of a module: ask where it is loaded and how large its
    /// image is, then copy exactly that many bytes from there.
    pub fn snapshot(handle: &'a ProcessHandle, module: usize) -> (operation: Operation<'a>)
        ensures
            operation@ == (OperationView::Locating { handle: handle@, module }),
    {
        Operation::at(Stage::Locating { handle: handle.raw(), module })
    }

    /// An operation that has finished with `result`.
    pub fn finished(result: Result<Outcome, MemoryError>) -> (operation: Operation<'a>)
        ensures
            operation@ == (OperationView::Finished { ending: ending_of(result) }),
    {
        Operation::at(Stage::Finished { result })
    }

    /// The request whose reply the operation waits for; none once it has
    /// finished.
    pub fn request(&self) -> (r: Option<Request>)
        ensures
            match r {
                Some(request) => self@.request() == Some(request@),
                None => self@.request() is None,
            },
    {
        match &self.stage {
            Stage::Opening { desired_access, process_id } => Some(
                Request::OpenProcess { desired_access: *desired_access, process_id: *process_id },
            ),
            Stage::OpeningToPatch { desired_access, process_id, .. } => Some(
                Request::OpenProcess { desired_access: *desired_access, process_id: *process_id },
            ),
            Stage::Closing { handle, .. } => Some(Request::CloseHandle { handle: *handle }),
            Stage::Querying { plan } => Some(
                Request::QueryRegion { handle: plan.handle, address: plan.address },
            ),
            Stage::Widening { plan } => Some(
                Request::SetProtection {
                    handle: plan.handle,
                    address: plan.address,
                    size: POINTER_WINDOW,
                    protection: PAGE_READWRITE,
                },
            ),
            Stage::Copying { plan, .. } => Some(
                Request::ReadBytes { handle: plan.handle, address: plan.address, size: plan.size },
            ),
            Stage::Unprotecting { handle, address, bytes, .. } => Some(
                Request::SetProtection {
                    handle: *handle,
                    address: *address,
                    size: bytes.len(),
                    protection: PAGE_EXECUTE_READWRITE,
                },
            ),
            Stage::Writing { handle, address, bytes, .. } => Some(
                Request::WriteBytes { handle: *handle, address: *address, bytes: copy_bytes(bytes) },
            ),
            Stage::Restoring { handle, address, size, protection, .. } => Some(
                Request::SetProtection {
                    handle: *handle,
                    address: *address,
                    size: *size,
                    protection: *protection,
                },
            ),
            Stage::Sizing { handle, .. } => Some(Request::QueryBitness { handle: *handle }),
            Stage::Walking { handle, address, width, .. } => Some(
                Request::ReadBytes { handle: *handle, address: *address, size: *width },
            ),
            Stage::FindingProcess { .. } => Some(Request::ListProcesses),
            Stage::FindingModule { process_id, .. } => Some(
                Request::ListModules { process_id: *process_id },
            ),
            Stage::Locating { handle, module } => Some(
                Request::QueryModule { handle: *handle, module: *module },
            ),
            Stage::Imaging { handle, information, .. } => Some(
                Request::ReadBytes {
                    handle: *handle,
                    address: information.base_address,
                    size: information.size as usize,
                },
            ),
            Stage::Finished { .. } => None,
        }
    }

    /// Whether nothing is left to do.
    pub fn is_finished(&self) -> (r: bool)
        ensures
            r == self@.ending() is Some,
    {
        match &self.stage {
            Stage::Finished { .. } => true,
            _ => false,
        }
    }

    /// How the operation ended; nothing while it has not.
    pub fn finish(self) -> (r: Option<Result<Outcome, MemoryError>>)
        ensures
            match r {
                Some(result) => self@.ending() == Some(ending_of(result)),
                None => self@.ending() is None,
            },
    {
        match self.stage {
            Stage::Finished { result } => Some(result),
            _ => None,
        }
    }

    /// Takes the reply to the pending request and moves on.
    pub fn resume(self, reply: Reply) -> (next: Operation<'a>)
        ensures
            next@ == self@.step(reply@),
    {
        let stage = match self.stage {
            Stage::Opening { .. } => match reply {
                Reply::Handle(raw) => match ProcessHandle::from_raw(raw) {
                    Some(handle) => Stage::Finished { result: Ok(Outcome::Handle(handle)) },
                    None => Stage::Finished { result: Err(MemoryError::HandleAcquisitionFailure) },
                },
                _ => Stage::Finished { result: Err(MemoryError::HandleAcquisitionFailure) },
            },
            Stage::OpeningToPatch { address, bytes, .. } => match reply {
                Reply::Handle(handle) => if handle != 0 {
                    Stage::Unprotecting { handle, address, bytes, close: true }
                } else {
                    Stage::Finished { result: Err(MemoryError::HandleAcquisitionFailure) }
                },
                _ => Stage::Finished { result: Err(MemoryError::HandleAcquisitionFailure) },
            },
            Stage::Closing { result, .. } => Stage::Finished { result },
            Stage::Querying { plan } => match reply {
                Reply::Region(info) => if is_page_readable(&info) {
                    Stage::Copying { plan, previous: None }
                } else {
                    Stage::Widening { plan }
                },
                _ => Stage::Finished { result: Err(MemoryError::MemoryQueryFailure) },
            },
            Stage::Widening { plan } => match reply {
                Reply::Protection(previous) => Stage::Copying { plan, previous: Some(previous) },
                _ => Stage::Finished { result: Err(MemoryError::ProtectionChangeFailure) },
            },
            Stage::Copying { plan, previous } => {
                let result = match reply {
                    Reply::Bytes(bytes) => read_result(plan, bytes),
                    _ => Err(MemoryError::ReadFailure),
                };
                match previous {
                    Some(protection) => Stage::Restoring {
                        handle: plan.handle,
                        address: plan.address,
                        size: POINTER_WINDOW,
                        protection,
                        result,
                        close: false,
                    },
                    None => Stage::Finished { result },
                }
            },
            Stage::Unprotecting { handle, address, bytes, close } => match reply {
                Reply::Protection(previous) => Stage::Writing {
                    handle,
                    address,
                    bytes,
                    previous: Some(previous),
                    close,
                },
                _ => winding_up(handle, Err(MemoryError::ProtectionChangeFailure), close),
            },
            Stage::Writing { handle, address, bytes, previous, close } => {
                let result = match reply {
                    Reply::Written => Ok(Outcome::Done),
                    _ => Err(MemoryError::WriteFailure),
                };
                match previous {
                    Some(protection) => Stage::Restoring {
                        handle,
                        address,
                        size: bytes.len(),
                        protection,
                        result,
                        close,
                    },
                    None => winding_up(handle, result, close),
                }
            },
            Stage::Restoring { handle, result, close, .. } => match reply {
                Reply::Protection(_) => winding_up(handle, result, close),
                _ => match result {
                    Ok(_) => winding_up(
                        handle,
                        Err(MemoryError::ProtectionChangeFailure),
                        close,
                    ),
                    Err(earlier) => winding_up(handle, Err(earlier), close),
                },
            },
            Stage::Sizing { handle, address, offsets } => match reply {
                Reply::Bitness(is_32_bit) => if offsets.len() == 0 {
                    Stage::Finished { result: Ok(Outcome::Address(address)) }
                } else {
                    let width: usize = if is_32_bit {
                        4
                    } else {
                        8
                    };
                    assert(offsets@.skip(0) =~= offsets@);
                    Stage::Walking { handle, address, offsets, next: 0, width }
                },
                _ => Stage::Finished { result: Err(MemoryError::BitnessQueryFailure) },
            },
            Stage::Walking { handle, address, offsets, next, width } => if next >= offsets.len() {
                Stage::Finished { result: Ok(Outcome::Address(address)) }
            } else {
                let ghost left = remaining(offsets@, next);
                assert(left[0] == offsets@[next as int]);
                assert(left.drop_first() =~= remaining(offsets@, (next + 1) as usize));
                let pointer = match reply {
                    Reply::Bytes(bytes) => if bytes.len() == width {
                        decode_pointer(bytes.as_slice())
                    } else {
                        None
                    },
                    _ => None,
                };
                match pointer {
                    Some(pointer) => {
                        let target = add_offset(pointer, offsets[next]);
                        if next + 1 == offsets.len() {
                            Stage::Finished { result: Ok(Outcome::Address(target)) }
                        } else {
                            Stage::Walking { handle, address: target, offsets, next: next + 1, width }
                        }
                    },
                    None => Stage::Finished { result: Err(MemoryError::ReadFailure) },
                }
            },
            Stage::FindingProcess { name } => match reply {
                Reply::Processes(processes) => match first_process(
                    processes.as_slice(),
                    name.as_slice(),
                ) {
                    Some(id) => Stage::Finished { result: Ok(Outcome::ProcessId(id)) },
                    None => Stage::Finished { result: Err(MemoryError::ProcessNotFound) },
                },
                _ => Stage::Finished { result: Err(MemoryError::ProcessNotFound) },
            },
            Stage::FindingModule { name, .. } => match reply {
                Reply::Modules(modules) => match first_module(modules.as_slice(), name.as_slice()) {
                    Some(base) => Stage::Finished { result: Ok(Outcome::Address(base)) },
                    None => Stage::Finished { result: Err(MemoryError::ModuleNotFound) },
                },
                _ => Stage::Finished { result: Err(MemoryError::ModuleNotFound) },
            },
            Stage::Locating { handle, module } => match reply {
                Reply::Module(information) => Stage::Imaging { handle, module, information },
                _ => Stage::Finished { result: Err(MemoryError::ModuleNotFound) },
            },
            Stage::Imaging { module, information, .. } => match reply {
                Reply::Bytes(data) => match Module::assemble(module, information, data) {
                    Ok(snapshot) => Stage::Finished { result: Ok(Outcome::Module(snapshot)) },
                    Err(error) => Stage::Finished { result: Err(error) },
                },
                _ => Stage::Finished { result: Err(MemoryError::ReadFailure) },
            },
            Stage::Finished { result } => Stage::Finished { result },
        };
        Operation::at(stage)
    }
}

} // verus!

//! A mathematical model of a target that nothing else touches while an
//! operation runs, and what the operations achieve on such a target.
//!
//! The model is ghost code: nothing of it is compiled. It says how a quiescent
//! process answers each request; the laws below then follow an operation
//! from its first request to its end.

use crate::codec::{le_number, lemma_le_number_bound, lemma_pow256_values, lemma_value_round_trip, pointer_of, relative_number, wrapped_sum, Value, ValueKind};
use crate::error::MemoryError;
use crate::module::{terminated, ModuleView, NAME_LIMIT};
use crate::operation::{lemma_step_makes_progress, read_ending, Ending, Form, OperationView, OutcomeView, ReadPlan};
use crate::process::{field_address, scan, ModuleEntry, ProcessEntry};
use crate::protocol::{page_readable, MemoryRegionInfo, ReplyView, RequestView, MEM_COMMIT, PAGE_EXECUTE_READWRITE, PAGE_READWRITE, POINTER_WINDOW};
use vstd::prelude::*;
use vstd::utf8::{decode_utf8, valid_utf8};

verus! {

/// The number of bytes in a page.
pub open spec fn page_size() -> int {
    4096
}

/// The page that holds an address.
pub open spec fn page_of(address: int) -> int {
    address / page_size()
}

/// Whether a range of `size` bytes from `address` touches `page`.
pub open spec fn touches(address: int, size: int, page: int) -> bool {
    size > 0 && page_of(address) <= page <= page_of(address + size - 1)
}

/// Whether a protection lets the page be read.
pub open spec fn allows_read(protection: u32) -> bool {
    protection == 0x02 || protection == 0x04 || protection == 0x08 || protection == 0x20
        || protection == 0x40 || protection == 0x80
}

/// Whether a protection lets the page be written.
pub open spec fn allows_write(protection: u32) -> bool {
    protection == 0x04 || protection == 0x08 || protection == 0x40 || protection == 0x80
}

/// A module that the target has loaded.
pub struct LoadedModule {
    /// The name, as a zero-terminated buffer.
    pub name: Seq<u8>,
    /// Where the module is loaded.
    pub base_address: usize,
    /// How many bytes its image has.
    pub size: u32,
}

/// A process as the operations see it.
pub struct Target {
    /// The identifier under which the process can be opened.
    pub process_id: u32,
    /// The handle under which the process is open.
    pub handle: usize,
    /// Whether the process runs with 32-bit pointers.
    pub is_32_bit: bool,
    /// The byte at each address.
    pub memory: spec_fn(int) -> u8,
    /// The commit state of each page.
    pub state: spec_fn(int) -> u32,
    /// The protection of each page.
    pub protection: spec_fn(int) -> u32,
    /// The modules that the process has loaded, by their handles.
    pub modules: Map<usize, LoadedModule>,
    /// The modules as the system lists them.
    pub listed: Seq<ModuleEntry>,
    /// The processes that run beside this one, as the system lists them.
    pub running: Seq<ProcessEntry>,
}

impl Target {
    /// Whether every page of the range is committed.
    pub open spec fn committed(self, address: int, size: int) -> bool {
        forall|page: int| touches(address, size, page) ==> (self.state)(page) == MEM_COMMIT
    }

    /// Whether every page of the range is committed and can be read.
    pub open spec fn readable(self, address: int, size: int) -> bool {
        forall|page: int|
            touches(address, size, page) ==> (self.state)(page) == MEM_COMMIT && allows_read(
                (self.protection)(page),
            )
    }

    /// Whether every page of the range is committed and can be written.
    pub open spec fn writable(self, address: int, size: int) -> bool {
        forall|page: int|
            touches(address, size, page) ==> (self.state)(page) == MEM_COMMIT && allows_write(
                (self.protection)(page),
            )
    }

    /// The `size` bytes from `address`.
    pub open spec fn bytes_at(self, address: int, size: int) -> Seq<u8> {
        Seq::new(size as nat, |i: int| (self.memory)(address + i))
    }

    /// The width of a pointer of the target, in bytes.
    pub open spec fn pointer_width(self) -> usize {
        if self.is_32_bit {
            4
        } else {
            8
        }
    }

    /// What the query of the page that holds `address` gives.
    pub open spec fn region(self, address: int) -> MemoryRegionInfo {
        MemoryRegionInfo {
            state: (self.state)(page_of(address)),
            protect: (self.protection)(page_of(address)),
        }
    }

    /// The target after the protection of a range was set.
    pub open spec fn protect(self, address: int, size: int, protection: u32) -> Target {
        Target {
            protection: |page: int|
                if touches(address, size, page) {
                    protection
                } else {
                    (self.protection)(page)
                },
            ..self
        }
    }

    /// The target after `bytes` were written at `address`.
    pub open spec fn store(self, address: int, bytes: Seq<u8>) -> Target {
        Target {
            memory: |at: int|
                if address <= at < address + bytes.len() {
                    bytes[at - address]
                } else {
                    (self.memory)(at)
                },
            ..self
        }
    }

    /// How the target answers a request under its own handle.
    pub open spec fn respond_open(self, request: RequestView) -> (ReplyView, Target) {
        match request {
            RequestView::QueryRegion { address, .. } => (
                ReplyView::Region(self.region(address as int)),
                self,
            ),
            RequestView::SetProtection { address, size, protection, .. } => if size > 0
                && self.committed(address as int, size as int) {
                (
                    ReplyView::Protection((self.protection)(page_of(address as int))),
                    self.protect(address as int, size as int, protection),
                )
            } else {
                (ReplyView::Failed, self)
            },
            RequestView::ReadBytes { address, size, .. } => if self.readable(
                address as int,
                size as int,
            ) {
                (ReplyView::Bytes(self.bytes_at(address as int, size as int)), self)
            } else {
                (ReplyView::Failed, self)
            },
            RequestView::WriteBytes { address, bytes, .. } => if self.writable(
                address as int,
                bytes.len() as int,
            ) {
                (ReplyView::Written, self.store(address as int, bytes))
            } else {
                (ReplyView::Failed, self)
            },
            RequestView::QueryBitness { .. } => (ReplyView::Bitness(self.is_32_bit), self),
            RequestView::QueryModule { module, .. } => if self.modules.dom().contains(module) {
                (
                    ReplyView::Module {
                        name: self.modules[module].name,
                        base_address: self.modules[module].base_address,
                        size: self.modules[module].size,
                    },
                    self,
                )
            } else {
                (ReplyView::Failed, self)
            },
            _ => (ReplyView::Failed, self),
        }
    }

    /// How the target answers a request, and what it is afterwards. A
    /// request under another handle than the target's own fails.
    pub open spec fn respond(self, request: RequestView) -> (ReplyView, Target) {
        match request {
            RequestView::OpenProcess { process_id, .. } => if process_id == self.process_id {
                (ReplyView::Handle(self.handle), self)
            } else {
                (ReplyView::Failed, self)
            },
            RequestView::CloseHandle { .. } => (ReplyView::Closed, self),
            RequestView::ListProcesses => (ReplyView::Processes(self.running), self),
            RequestView::ListModules { process_id } => if process_id == self.process_id {
                (ReplyView::Modules(self.listed), self)
            } else {
                (ReplyView::Failed, self)
            },
            RequestView::QueryRegion { handle, .. }
            | RequestView::SetProtection { handle, .. }
            | RequestView::ReadBytes { handle, .. }
            | RequestView::WriteBytes { handle, .. }
            | RequestView::QueryBitness { handle }
            | RequestView::QueryModule { handle, .. } => if handle == self.handle {
                self.respond_open(request)
            } else {
                (ReplyView::Failed, self)
            },
        }
    }
}

/// The operation and the target after the operation was driven to its end.
pub open spec fn run(operation: OperationView, target: Target) -> (OperationView, Target)
    decreases operation.steps_left(),
    via run_decreases
{
    match operation.request() {
        None => (operation, target),
        Some(request) => {
            let (reply, next) = target.respond(request);
            run(operation.step(reply), next)
        },
    }
}

#[via_fn]
proof fn run_decreases(operation: OperationView, target: Target) {
    if operation.request() is Some {
        let (reply, next) = target.respond(operation.request()->0);
        lemma_step_makes_progress(operation, reply);
    }
}

/// How an operation ends on a target.
pub open spec fn ending_on(operation: OperationView, target: Target) -> Ending {
    match run(operation, target).0 {
        OperationView::Finished { ending } => ending,
        _ => Err(MemoryError::ReadFailure),
    }
}

/// Every operation ends.
pub proof fn law_every_operation_ends(operation: OperationView, target: Target)
    ensures
        run(operation, target).0.ending() is Some,
    decreases operation.steps_left(),
{
    if operation.request() is Some {
        let (reply, next) = target.respond(operation.request()->0);
        lemma_step_makes_progress(operation, reply);
        law_every_operation_ends(operation.step(reply), next);
    } else {
        lemma_step_makes_progress(operation, ReplyView::Failed);
    }
}

/// A plain write of `bytes` at `address`.
pub open spec fn plain_write(handle: usize, address: usize, bytes: Seq<u8>) -> OperationView {
    OperationView::Writing { handle, address, bytes, previous: None, close: false }
}

/// A plain read according to `plan`.
pub open spec fn plain_read(plan: ReadPlan) -> OperationView {
    OperationView::Copying { plan, previous: None }
}

/// A plain write ends well exactly where the range can be written, and
/// then the bytes stand in the target.
pub proof fn law_plain_write_stores(target: Target, address: usize, bytes: Seq<u8>)
    ensures
        ({
            let (end, after) = run(plain_write(target.handle, address, bytes), target);
            if target.writable(address as int, bytes.len() as int) {
                &&& end.ending() == Some(Ok::<OutcomeView, MemoryError>(OutcomeView::Done))
                &&& after == target.store(address as int, bytes)
                &&& after.bytes_at(address as int, bytes.len() as int) == bytes
            } else {
                &&& end.ending() == Some(Err::<OutcomeView, MemoryError>(MemoryError::WriteFailure))
                &&& after == target
            }
        }),
{
    reveal_with_fuel(run, 3);
    let after = target.store(address as int, bytes);
    assert(after.bytes_at(address as int, bytes.len() as int) =~= bytes);
}

/// A plain read ends well exactly where the range can be read, hands over
/// what stands there in the form that its plan asks for, and leaves the
/// target as it was.
pub proof fn law_plain_read_copies(target: Target, plan: ReadPlan)
    requires
        plan.handle == target.handle,
    ensures
        ({
            let (end, after) = run(plain_read(plan), target);
            &&& after == target
            &&& end.ending() == Some(
                if target.readable(plan.address as int, plan.size as int) {
                    read_ending(plan, target.bytes_at(plan.address as int, plan.size as int))
                } else {
                    Err::<OutcomeView, MemoryError>(MemoryError::ReadFailure)
                },
            )
        }),
{
    reveal_with_fuel(run, 3);
}

/// Bytes that were written are the bytes that are read back at once from
/// the same address.
pub proof fn law_read_after_write(target: Target, address: usize, bytes: Seq<u8>)
    requires
        bytes.len() <= usize::MAX,
        ending_on(plain_write(target.handle, address, bytes), target) == Ok::<
            OutcomeView,
            MemoryError,
        >(OutcomeView::Done),
    ensures
        ({
            let after = run(plain_write(target.handle, address, bytes), target).1;
            let plan = ReadPlan {
                handle: target.handle,
                address,
                size: bytes.len() as usize,
                form: Form::Bytes,
            };
            ending_on(plain_read(plan), after) == Ok::<OutcomeView, MemoryError>(
                OutcomeView::Bytes(bytes),
            )
        }),
{
    law_plain_write_stores(target, address, bytes);
    let after = target.store(address as int, bytes);
    let plan = ReadPlan {
        handle: target.handle,
        address,
        size: bytes.len() as usize,
        form: Form::Bytes,
    };
    law_plain_read_copies(after, plan);
}

/// A read under guard according to `plan`.
pub open spec fn guarded_read(plan: ReadPlan) -> OperationView {
    OperationView::Querying { plan }
}

/// A patch of `bytes` at `address`.
pub open spec fn patch(handle: usize, address: usize, bytes: Seq<u8>) -> OperationView {
    OperationView::Unprotecting { handle, address, bytes, close: false }
}

/// Setting the protection of a range and then setting it to what the first
/// call returned leaves the page of the first byte as it was.
proof fn lemma_protect_and_restore(target: Target, address: int, size: int, protection: u32)
    requires
        size > 0,
        target.committed(address, size),
    ensures
        ({
            let widened = target.protect(address, size, protection);
            let previous = (target.protection)(page_of(address));
            let restored = widened.protect(address, size, previous);
            &&& widened.committed(address, size)
            &&& restored.region(address) == target.region(address)
            &&& forall|page: int|
                !touches(address, size, page) ==> (restored.protection)(page) == (
                target.protection)(page)
        }),
{
    assert(touches(address, size, page_of(address))) by {
        assert(page_of(address) <= page_of(address + size - 1)) by (nonlinear_arith)
            requires
                size > 0,
        ;
    }
}

/// After a read under guard, whether it went well or not, a query of the
/// page shows the protection that was there before the read, the pages
/// outside the widened window have their protection too, and no byte has
/// changed.
pub proof fn law_guarded_read_restores_protection(target: Target, plan: ReadPlan)
    ensures
        ({
            let after = run(guarded_read(plan), target).1;
            &&& after.region(plan.address as int) == target.region(plan.address as int)
            &&& forall|page: int|
                !touches(plan.address as int, POINTER_WINDOW as int, page) ==> (after.protection)(
                    page,
                ) == (target.protection)(page)
            &&& after.memory == target.memory
            &&& after.state == target.state
        }),
{
    reveal_with_fuel(run, 6);
    let address = plan.address as int;
    if plan.handle == target.handle && !page_readable(target.region(address)) && target.committed(
        address,
        POINTER_WINDOW as int,
    ) {
        lemma_protect_and_restore(target, address, POINTER_WINDOW as int, PAGE_READWRITE);
    }
}

/// A read under guard of at most a window's length gets through to
/// committed pages: it hands over the bytes that stand there, in the form
/// that its plan asks for, at once where the range can be read, and through
/// the widened protection where the page test says that it cannot. (A page
/// that passes the test and still cannot be read, such as one that may only
/// be executed, is not widened: the read fails there.)
pub proof fn law_guarded_read_gets_through(target: Target, plan: ReadPlan)
    requires
        plan.handle == target.handle,
        0 < plan.size <= POINTER_WINDOW,
        target.committed(plan.address as int, POINTER_WINDOW as int),
        page_readable(target.region(plan.address as int)) ==> target.readable(
            plan.address as int,
            plan.size as int,
        ),
    ensures
        run(guarded_read(plan), target).0.ending() == Some(
            read_ending(plan, target.bytes_at(plan.address as int, plan.size as int)),
        ),
{
    reveal_with_fuel(run, 6);
    let start = plan.address as int;
    let size = plan.size as int;
    let window = POINTER_WINDOW as int;
    assert(page_of(start + size - 1) <= page_of(start + window - 1)) by (nonlinear_arith)
        requires
            size <= window,
    ;
    assert(touches(start, window, page_of(start))) by {
        assert(page_of(start) <= page_of(start + window - 1)) by (nonlinear_arith)
            requires
                window > 0,
        ;
    }
    if !page_readable(target.region(start)) {
        lemma_protect_and_restore(target, start, window, PAGE_READWRITE);
        let widened = target.protect(start, window, PAGE_READWRITE);
        assert(widened.readable(start, size)) by {
            assert forall|page: int| touches(start, size, page) implies (widened.state)(page)
                == MEM_COMMIT && allows_read((widened.protection)(page)) by {
                assert(touches(start, window, page));
            }
        }
        assert(widened.bytes_at(start, size) =~= target.bytes_at(start, size));
    }
}

/// A value that was written is the value that is read back at once from
/// the same address.
pub proof fn law_value_read_after_write(target: Target, address: usize, value: Value)
    requires
        ending_on(plain_write(target.handle, address, value.bytes()), target) == Ok::<
            OutcomeView,
            MemoryError,
        >(OutcomeView::Done),
    ensures
        ({
            let after = run(plain_write(target.handle, address, value.bytes()), target).1;
            let plan = ReadPlan {
                handle: target.handle,
                address,
                size: value.spec_kind().width() as usize,
                form: Form::Value(value.spec_kind()),
            };
            ending_on(plain_read(plan), after) == Ok::<OutcomeView, MemoryError>(
                OutcomeView::Value(value),
            )
        }),
{
    lemma_value_round_trip(value);
    law_plain_write_stores(target, address, value.bytes());
    let after = target.store(address as int, value.bytes());
    let kind = value.spec_kind();
    let plan = ReadPlan {
        handle: target.handle,
        address,
        size: kind.width() as usize,
        form: Form::Value(kind),
    };
    law_plain_read_copies(after, plan);
    assert(after.bytes_at(address as int, kind.width() as int) == value.bytes());
}

/// A scan that has found its signature hands over the value that stands
/// in the field behind it, less the module's base and plus `extra`; it
/// hands over nothing where that is no value of the kind asked for.
pub proof fn law_scan_gives_relative_value(
    target: Target,
    base_address: usize,
    index: usize,
    offset: usize,
    extra: usize,
    kind: ValueKind,
)
    requires
        field_address(base_address, index, offset) is Some,
        target.committed(
            field_address(base_address, index, offset)->0 as int,
            POINTER_WINDOW as int,
        ),
        page_readable(target.region(field_address(base_address, index, offset)->0 as int))
            ==> target.readable(
            field_address(base_address, index, offset)->0 as int,
            kind.width() as int,
        ),
    ensures
        ({
            let address = (base_address + index + offset) as int;
            let raw = kind.interpret(le_number(target.bytes_at(address, kind.width() as int)));
            ending_on(
                scan(target.handle, base_address, Some(index), offset, extra, kind),
                target,
            ) == match relative_number(kind, raw, base_address as int, extra as int) {
                Some(number) => Ok::<OutcomeView, MemoryError>(
                    OutcomeView::Value(kind.value(number)),
                ),
                None => Ok::<OutcomeView, MemoryError>(OutcomeView::Absent),
            }
        }),
{
    let address = field_address(base_address, index, offset)->0;
    let plan = ReadPlan {
        handle: target.handle,
        address,
        size: kind.width() as usize,
        form: Form::Relative { kind, base_address, extra },
    };
    law_guarded_read_gets_through(target, plan);
    let bytes = target.bytes_at(address as int, kind.width() as int);
    lemma_le_number_bound(bytes);
    lemma_pow256_values();
    let raw = kind.value(kind.interpret(le_number(bytes)));
    assert(raw.spec_kind() == kind);
    assert(raw.number() == kind.interpret(le_number(bytes)));
}

/// After a patch, whether it went well or not, a query of the page shows
/// the protection that was there before the patch, and the pages outside
/// the patched range have their protection too.
pub proof fn law_patch_restores_protection(
    target: Target,
    handle: usize,
    address: usize,
    bytes: Seq<u8>,
)
    requires
        bytes.len() <= usize::MAX,
    ensures
        ({
            let after = run(patch(handle, address, bytes), target).1;
            &&& after.region(address as int) == target.region(address as int)
            &&& forall|page: int|
                !touches(address as int, bytes.len() as int, page) ==> (after.protection)(page)
                    == (target.protection)(page)
            &&& after.state == target.state
        }),
{
    reveal_with_fuel(run, 6);
    let start = address as int;
    let size = bytes.len() as int;
    if handle == target.handle && size > 0 && target.committed(start, size) {
        lemma_protect_and_restore(target, start, size, PAGE_EXECUTE_READWRITE);
    }
}

/// A patch of committed pages goes through whatever their protection is:
/// it ends well, and the bytes stand in the target.
pub proof fn law_patch_stores(target: Target, address: usize, bytes: Seq<u8>)
    requires
        0 < bytes.len() <= usize::MAX,
        target.committed(address as int, bytes.len() as int),
    ensures
        ({
            let (end, after) = run(patch(target.handle, address, bytes), target);
            &&& end.ending() == Some(Ok::<OutcomeView, MemoryError>(OutcomeView::Done))
            &&& after.bytes_at(address as int, bytes.len() as int) == bytes
        }),
{
    reveal_with_fuel(run, 6);
    let start = address as int;
    let size = bytes.len() as int;
    lemma_protect_and_restore(target, start, size, PAGE_EXECUTE_READWRITE);
    let widened = target.protect(start, size, PAGE_EXECUTE_READWRITE);
    assert(widened.writable(start, size));
    let written = widened.store(start, bytes);
    assert(written.committed(start, size));
    let previous = (target.protection)(page_of(start));
    let restored = written.protect(start, size, previous);
    assert(restored.bytes_at(start, size) =~= bytes);
}

/// The pointer that stands at `address`, if the bytes there can be read
/// and spell an address.
pub open spec fn pointer_at(target: Target, address: usize) -> Option<usize> {
    if target.readable(address as int, target.pointer_width() as int) {
        pointer_of(target.bytes_at(address as int, target.pointer_width() as int))
    } else {
        None
    }
}

/// The address at the end of a pointer chain: for each offset in turn, the
/// pointer at the current address plus the offset.
pub open spec fn chain_end(target: Target, address: usize, offsets: Seq<usize>) -> Option<usize>
    decreases offsets.len(),
{
    if offsets.len() == 0 {
        Some(address)
    } else {
        match pointer_at(target, address) {
            Some(pointer) => chain_end(
                target,
                wrapped_sum(pointer, offsets[0]),
                offsets.drop_first(),
            ),
            None => None,
        }
    }
}

/// How a walk along the chain ends.
pub open spec fn chain_ending(target: Target, address: usize, offsets: Seq<usize>) -> Ending {
    match chain_end(target, address, offsets) {
        Some(end) => Ok(OutcomeView::Address(end)),
        None => Err(MemoryError::ReadFailure),
    }
}

proof fn lemma_walking_follows_chain(target: Target, address: usize, offsets: Seq<usize>)
    ensures
        ({
            let walking = OperationView::Walking {
                handle: target.handle,
                address,
                offsets,
                width: target.pointer_width(),
            };
            &&& run(walking, target).0.ending() == Some(chain_ending(target, address, offsets))
            &&& run(walking, target).1 == target
        }),
    decreases offsets.len(),
{
    reveal_with_fuel(run, 2);
    let walking = OperationView::Walking {
        handle: target.handle,
        address,
        offsets,
        width: target.pointer_width(),
    };
    if offsets.len() > 0 {
        let width = target.pointer_width();
        match pointer_at(target, address) {
            Some(pointer) => {
                let next = wrapped_sum(pointer, offsets[0]);
                lemma_walking_follows_chain(target, next, offsets.drop_first());
                if offsets.len() == 1 {
                    assert(offsets.drop_first().len() == 0);
                }
            },
            None => {},
        }
    }
}

/// A walk along a pointer chain ends at the address that the chain leads
/// to, or with a failed read where a pointer of the chain cannot be read,
/// and leaves the target as it was.
pub proof fn law_walk_follows_chain(target: Target, base: usize, offsets: Seq<usize>)
    requires
        offsets.len() > 0,
    ensures
        ({
            let walk = OperationView::Sizing { handle: target.handle, address: base, offsets };
            &&& run(walk, target).0.ending() == Some(chain_ending(target, base, offsets))
            &&& run(walk, target).1 == target
        }),
{
    reveal_with_fuel(run, 2);
    lemma_walking_follows_chain(target, base, offsets);
}

/// A chain without offsets ends where it starts.
pub proof fn law_empty_chain_ends_at_base(target: Target, base: usize)
    ensures
        chain_end(target, base, Seq::<usize>::empty()) == Some(base),
{
}

/// A chain of two offsets: the pointer at the base plus the first offset is
/// where the second pointer stands, and the second pointer plus the second
/// offset is the end.
pub proof fn law_two_offsets(target: Target, base: usize, first: usize, second: usize)
    requires
        pointer_at(target, base) is Some,
        pointer_at(target, wrapped_sum(pointer_at(target, base)->0, first)) is Some,
    ensures
        ({
            let walk = OperationView::Sizing {
                handle: target.handle,
                address: base,
                offsets: seq![first, second],
            };
            let inner = pointer_at(target, base)->0;
            let outer = pointer_at(target, wrapped_sum(inner, first))->0;
            run(walk, target).0.ending() == Some(
                Ok::<OutcomeView, MemoryError>(OutcomeView::Address(wrapped_sum(outer, second))),
            )
        }),
{
    let offsets = seq![first, second];
    law_walk_follows_chain(target, base, offsets);
    let inner = pointer_at(target, base)->0;
    let outer = pointer_at(target, wrapped_sum(inner, first))->0;
    reveal_with_fuel(chain_end, 3);
    assert(offsets.drop_first() =~= seq![second]);
    assert(offsets.drop_first().drop_first() =~= Seq::<usize>::empty());
}

/// An operation that opens the target itself, patches it and closes it
/// again does on committed pages what the patch alone does: it ends well,
/// the bytes stand in the target, and a query of the page shows the
/// protection that was there before.
pub proof fn law_session_patches(
    target: Target,
    desired_access: u32,
    address: usize,
    bytes: Seq<u8>,
)
    requires
        target.handle != 0,
        0 < bytes.len() <= usize::MAX,
        target.committed(address as int, bytes.len() as int),
    ensures
        ({
            let session = OperationView::OpeningToPatch {
                desired_access,
                process_id: target.process_id,
                address,
                bytes,
            };
            let (end, after) = run(session, target);
            &&& end.ending() == Some(Ok::<OutcomeView, MemoryError>(OutcomeView::Done))
            &&& after.bytes_at(address as int, bytes.len() as int) == bytes
            &&& after.region(address as int) == target.region(address as int)
        }),
{
    reveal_with_fuel(run, 8);
    let start = address as int;
    let size = bytes.len() as int;
    lemma_protect_and_restore(target, start, size, PAGE_EXECUTE_READWRITE);
    let widened = target.protect(start, size, PAGE_EXECUTE_READWRITE);
    assert(widened.writable(start, size));
    let written = widened.store(start, bytes);
    assert(written.committed(start, size));
    let previous = (target.protection)(page_of(start));
    let restored = written.protect(start, size, previous);
    assert(restored.bytes_at(start, size) =~= bytes);
}

/// The snapshot of a loaded module whose image can be read holds exactly
/// the bytes of the image, as many as the image is large, from where the
/// module is loaded.
pub proof fn law_snapshot_copies_image(target: Target, module: usize)
    requires
        target.modules.dom().contains(module),
        target.readable(
            target.modules[module].base_address as int,
            target.modules[module].size as int,
        ),
        valid_utf8(terminated(target.modules[module].name, NAME_LIMIT as nat)),
    ensures
        ({
            let loaded = target.modules[module];
            let snapshot = OperationView::Locating { handle: target.handle, module };
            let (end, after) = run(snapshot, target);
            &&& after == target
            &&& end.ending() == Some(
                Ok::<OutcomeView, MemoryError>(
                    OutcomeView::Module(
                        ModuleView {
                            name: decode_utf8(terminated(loaded.name, NAME_LIMIT as nat)),
                            handle: module,
                            size: loaded.size,
                            base_address: loaded.base_address,
                            data: target.bytes_at(loaded.base_address as int, loaded.size as int),
                        },
                    ),
                ),
            )
        }),
{
    reveal_with_fuel(run, 4);
}

} // verus!

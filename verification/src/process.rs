//! Finding a process and its modules, opening and closing it, and reading
//! what a signature points at.

use crate::codec::ValueKind;
use crate::engine::{engine_match, search};
use crate::error::MemoryError;
use crate::module::{lemma_text_len, terminated, terminated_len, Module};
use crate::operation::{Form, Operation, OperationView, OutcomeView, ProcessHandle, ReadPlan};
use crate::pattern::{signature_tokens, BytePattern};
use crate::protocol::{page_readable, MemoryRegionInfo, MEM_COMMIT, PAGE_NOACCESS};
use vstd::prelude::*;
use vstd::string::{StrSliceExecFns, StringSliceAdditionalSpecFns};

verus! {

/// Whether a page can be read as it is.
pub fn is_page_readable(memory_info: &MemoryRegionInfo) -> (r: bool)
    ensures
        r == page_readable(*memory_info),
{
    memory_info.state == MEM_COMMIT && memory_info.protect != 0 && memory_info.protect
        != PAGE_NOACCESS
}

/// Opens the process with the given access rights. The operation ends with
/// the handle, or with `HandleAcquisitionFailure`.
pub fn open_process(desired_access: u32, process_id: u32) -> (operation: Operation<'static>)
    ensures
        operation@ == (OperationView::Opening { desired_access, process_id }),
{
    Operation::opening(desired_access, process_id)
}

/// Releases the handle. It cannot be used afterwards.
pub fn close_handle(handle: ProcessHandle) -> (operation: Operation<'static>)
    ensures
        operation@ == (OperationView::Closing { handle: handle@, ending: Ok(OutcomeView::Done) }),
{
    Operation::closing(handle)
}

/// Reads `size` bytes at `base_address` under guard: asks whether the page
/// is readable, widens its protection where it is not, copies, and puts the
/// protection back whether or not the copy went well.
pub fn read(handle: &ProcessHandle, base_address: usize, size: usize) -> (operation: Operation<'_>)
    ensures
        operation@ == (OperationView::Querying {
            plan: ReadPlan { handle: handle@, address: base_address, size, form: Form::Bytes },
        }),
{
    Operation::guarded_read(handle, base_address, size, Form::Bytes)
}

/// One running process, as the operating system lists it: its identifier
/// and the zero-terminated name of its executable file.
#[derive(Clone, Debug, PartialEq, Eq)]
pub struct ProcessEntry {
    pub process_id: u32,
    pub exe_file: Vec<u8>,
}

/// One loaded module, as the operating system lists it: its zero-terminated
/// name and the address at which it is loaded.
#[derive(Clone, Debug, PartialEq, Eq)]
pub struct ModuleEntry {
    pub name: Vec<u8>,
    pub base_address: usize,
}

/// Whether a zero-terminated buffer holds exactly `name`, byte for byte.
pub open spec fn is_named(buffer: Seq<u8>, name: Seq<u8>) -> bool {
    terminated(buffer, buffer.len()) == name
}

/// Compares the name in a zero-terminated buffer with `name`.
pub fn has_name(buffer: &[u8], name: &[u8]) -> (r: bool)
    ensures
        r == is_named(buffer@, name@),
{
    let n = terminated_len(buffer, buffer.len());
    proof {
        lemma_text_len(buffer@, buffer@.len());
    }
    let ghost text = terminated(buffer@, buffer@.len());
    if n != name.len() {
        return false;
    }
    let mut i: usize = 0;
    while i < n
        invariant
            i <= n,
            n == name@.len(),
            n <= buffer@.len(),
            text == buffer@.take(n as int),
            text == terminated(buffer@, buffer@.len()),
            forall|k: int| 0 <= k < i ==> buffer@[k] == name@[k],
        decreases n - i,
    {
        if buffer[i] != name[i] {
            assert(text[i as int] != name@[i as int]);
            return false;
        }
        i = i + 1;
    }
    assert(text =~= name@);
    true
}

/// Whether the entry at `at` is the first of the list that holds `name`.
pub open spec fn first_named_at(names: Seq<Seq<u8>>, name: Seq<u8>, at: int) -> bool {
    &&& 0 <= at < names.len()
    &&& is_named(names[at], name)
    &&& forall|k: int| 0 <= k < at ==> !is_named(#[trigger] names[k], name)
}

/// Whether no entry of the list holds `name`.
pub open spec fn none_named(names: Seq<Seq<u8>>, name: Seq<u8>) -> bool {
    forall|k: int| 0 <= k < names.len() ==> !is_named(#[trigger] names[k], name)
}

/// The name buffers of a list of processes.
pub open spec fn process_names(processes: Seq<ProcessEntry>) -> Seq<Seq<u8>> {
    Seq::new(processes.len(), |i: int| processes[i].exe_file@)
}

/// The name buffers of a list of modules.
pub open spec fn module_names(modules: Seq<ModuleEntry>) -> Seq<Seq<u8>> {
    Seq::new(modules.len(), |i: int| modules[i].name@)
}

/// The identifier of the first process of the list that has the name.
pub open spec fn found_process(processes: Seq<ProcessEntry>, name: Seq<u8>) -> Option<u32> {
    if exists|at: int| first_named_at(process_names(processes), name, at) {
        Some(
            processes[choose|at: int| first_named_at(process_names(processes), name, at)].process_id,
        )
    } else {
        None
    }
}

/// The address at which the first module of the list that has the name is
/// loaded.
pub open spec fn found_base(modules: Seq<ModuleEntry>, name: Seq<u8>) -> Option<usize> {
    if exists|at: int| first_named_at(module_names(modules), name, at) {
        Some(modules[choose|at: int| first_named_at(module_names(modules), name, at)].base_address)
    } else {
        None
    }
}

/// A list has one first entry of a name at most.
pub proof fn lemma_first_named_is_unique(names: Seq<Seq<u8>>, name: Seq<u8>, at: int, other: int)
    requires
        first_named_at(names, name, at),
        first_named_at(names, name, other),
    ensures
        at == other,
{
    if at < other {
        assert(!is_named(names[at], name));
    }
    if other < at {
        assert(!is_named(names[other], name));
    }
}

/// Finds the first process of the list whose executable file has the name.
/// The names are compared byte for byte.
pub fn first_process(processes: &[ProcessEntry], name: &[u8]) -> (r: Option<u32>)
    ensures
        r == found_process(processes@, name@),
        r matches Some(id) ==> exists|at: int|
            #[trigger] first_named_at(process_names(processes@), name@, at)
                && processes@[at].process_id == id,
        r is None ==> none_named(process_names(processes@), name@),
{
    let ghost names = process_names(processes@);
    let mut i: usize = 0;
    while i < processes.len()
        invariant
            i <= processes@.len(),
            names == process_names(processes@),
            forall|k: int| 0 <= k < i ==> !is_named(#[trigger] names[k], name@),
        decreases processes@.len() - i,
    {
        if has_name(processes[i].exe_file.as_slice(), name) {
            proof {
                assert(first_named_at(names, name@, i as int));
                let chosen = choose|at: int| first_named_at(names, name@, at);
                lemma_first_named_is_unique(names, name@, i as int, chosen);
            }
            return Some(processes[i].process_id);
        }
        i = i + 1;
    }
    None
}

/// Finds the first module of the list that has the name. The names are
/// compared byte for byte.
pub fn first_module(modules: &[ModuleEntry], name: &[u8]) -> (r: Option<usize>)
    ensures
        r == found_base(modules@, name@),
        r matches Some(base) ==> exists|at: int|
            #[trigger] first_named_at(module_names(modules@), name@, at)
                && modules@[at].base_address == base,
        r is None ==> none_named(module_names(modules@), name@),
{
    let ghost names = module_names(modules@);
    let mut i: usize = 0;
    while i < modules.len()
        invariant
            i <= modules@.len(),
            names == module_names(modules@),
            forall|k: int| 0 <= k < i ==> !is_named(#[trigger] names[k], name@),
        decreases modules@.len() - i,
    {
        if has_name(modules[i].name.as_slice(), name) {
            proof {
                assert(first_named_at(names, name@, i as int));
                let chosen = choose|at: int| first_named_at(names, name@, at);
                lemma_first_named_is_unique(names, name@, i as int, chosen);
            }
            return Some(modules[i].base_address);
        }
        i = i + 1;
    }
    None
}

/// Finds a running process by the name of its executable file: lists the
/// processes and takes the first that has the name. The operation ends
/// with the identifier, or with `ProcessNotFound` where no process has the
/// name or the processes cannot be listed.
pub fn get_process_id(process_name: &str) -> (operation: Operation<'static>)
    ensures
        operation@ == (OperationView::FindingProcess { name: process_name.spec_bytes() }),
{
    Operation::finding_process(process_name.as_bytes_vec())
}

/// Finds the address at which a module of the process is loaded: lists the
/// modules and takes the first that has the name. The operation ends with
/// the address, or with `ModuleNotFound` where no module has the name or
/// the modules cannot be listed.
pub fn get_module_base(process_id: u32, module_name: &str) -> (operation: Operation<'static>)
    ensures
        operation@ == (OperationView::FindingModule {
            process_id,
            name: module_name.spec_bytes(),
        }),
{
    Operation::finding_module(process_id, module_name.as_bytes_vec())
}

/// Where the engine finds the signature that `text` denotes; nowhere where
/// the text is no signature.
pub open spec fn signature_match(text: Seq<u8>, buffer: Seq<u8>) -> Option<usize> {
    match signature_tokens(text) {
        Some(tokens) => engine_match(tokens, buffer),
        None => None,
    }
}

/// Finds a signature in the snapshot of a module and gives the offset at
/// which it starts.
pub fn find_pattern(module: &Module, pattern: &str) -> (r: Option<usize>)
    ensures
        r == signature_match(pattern.spec_bytes(), module.data@),
{
    match BytePattern::compile(pattern) {
        Some(compiled) => search(&compiled, module.data.as_slice()),
        None => None,
    }
}

/// The address of the field that lies `offset` bytes behind the offset
/// `index` of a module loaded at `base_address`, if there is such an
/// address.
pub open spec fn field_address(base_address: usize, index: usize, offset: usize) -> Option<usize> {
    if base_address + index + offset <= usize::MAX {
        Some((base_address + index + offset) as usize)
    } else {
        None
    }
}

/// What a scan does once the search has ended with `found`: where the
/// signature was found and the field behind it has an address, it reads the
/// field under guard; where the signature was not found, or the field has
/// no address, it has finished with a failure.
pub open spec fn scan(
    handle: usize,
    base_address: usize,
    found: Option<usize>,
    offset: usize,
    extra: usize,
    kind: ValueKind,
) -> OperationView {
    match found {
        Some(index) => match field_address(base_address, index, offset) {
            Some(address) => OperationView::Querying {
                plan: ReadPlan {
                    handle,
                    address,
                    size: kind.width() as usize,
                    form: Form::Relative { kind, base_address, extra },
                },
            },
            None => OperationView::Finished { ending: Err(MemoryError::ReadFailure) },
        },
        None => OperationView::Finished { ending: Err(MemoryError::PatternNotFound) },
    }
}

/// Reads the value that a signature points at, relative to the module. The
/// signature was found at the offset `found` of the snapshot; the field
/// lies `offset` bytes behind it in the live process. The value read there,
/// less the module's base and plus `extra`, is the result.
pub fn pattern_scan_at<'a>(
    handle: &'a ProcessHandle,
    module: &Module,
    found: Option<usize>,
    offset: usize,
    extra: usize,
    kind: ValueKind,
) -> (operation: Operation<'a>)
    ensures
        operation@ == scan(handle@, module.base_address, found, offset, extra, kind),
{
    let index = match found {
        Some(index) => index,
        None => {
            return Operation::finished(Err(MemoryError::PatternNotFound));
        },
    };
    let address = match module.base_address.checked_add(index) {
        Some(start) => start.checked_add(offset),
        None => None,
    };
    match address {
        Some(address) => Operation::guarded_read(
            handle,
            address,
            kind.size(),
            Form::Relative { kind, base_address: module.base_address, extra },
        ),
        None => Operation::finished(Err(MemoryError::ReadFailure)),
    }
}

/// Finds a signature in the snapshot of a module and reads the value that
/// it points at in the live process, relative to the module.
pub fn pattern_scan<'a>(
    handle: &'a ProcessHandle,
    module: &Module,
    pattern: &str,
    offset: usize,
    extra: usize,
    kind: ValueKind,
) -> (operation: Operation<'a>)
    ensures
        operation@ == scan(
            handle@,
            module.base_address,
            signature_match(pattern.spec_bytes(), module.data@),
            offset,
            extra,
            kind,
        ),
{
    pattern_scan_at(handle, module, find_pattern(module, pattern), offset, extra, kind)
}

} // verus!

//! The conversation between an operation and the operating system: what an
//! operation asks for, what it is told, and how it goes on from there.
//!
//! An [`Operation`] never calls the system itself. It names the next call
//! as a [`Request`]; whoever drives it makes the call and hands the
//! [`Reply`] to [`Operation::resume`], until no request is left.

use crate::module::ModuleInformation;
use crate::process::{ModuleEntry, ProcessEntry};
use vstd::prelude::*;

verus! {

/// Page protection: no access at all.
pub const PAGE_NOACCESS: u32 = 0x01;

/// Page protection: read and write.
pub const PAGE_READWRITE: u32 = 0x04;

/// Page protection: execute, read and write.
pub const PAGE_EXECUTE_READWRITE: u32 = 0x40;

/// Page state: committed.
pub const MEM_COMMIT: u32 = 0x1000;

/// The access right that allows everything on a process.
pub const PROCESS_ALL_ACCESS: u32 = 0x1f_ffff;

/// The number of bytes over which a guarded read widens the protection.
pub const POINTER_WINDOW: usize = 8;

/// The commit state and the protection of the page that holds an address.
#[derive(Clone, Copy, Debug, PartialEq, Eq, Structural)]
pub struct MemoryRegionInfo {
    pub state: u32,
    pub protect: u32,
}

/// Whether a page can be read as it is: it is committed and its protection
/// is neither empty nor "no access".
pub open spec fn page_readable(info: MemoryRegionInfo) -> bool {
    info.state == MEM_COMMIT && info.protect != 0 && info.protect != PAGE_NOACCESS
}

/// One call to the operating system, with everything it needs.
#[derive(Clone, Debug, PartialEq, Eq)]
pub enum Request {
    /// Open the process with the given access rights.
    OpenProcess { desired_access: u32, process_id: u32 },
    /// Release the handle.
    CloseHandle { handle: usize },
    /// Query the page that holds `address`.
    QueryRegion { handle: usize, address: usize },
    /// Set the protection of `size` bytes from `address`.
    SetProtection { handle: usize, address: usize, size: usize, protection: u32 },
    /// Copy `size` bytes from `address` out of the target.
    ReadBytes { handle: usize, address: usize, size: usize },
    /// Copy `bytes` into the target at `address`.
    WriteBytes { handle: usize, address: usize, bytes: Vec<u8> },
    /// Ask whether the target runs with 32-bit pointers.
    QueryBitness { handle: usize },
    /// Ask where a module of the process is loaded, how large its image is
    /// and what it is called.
    QueryModule { handle: usize, module: usize },
    /// List the running processes.
    ListProcesses,
    /// List the modules that a process has loaded.
    ListModules { process_id: u32 },
}

/// A request as a mathematical value.
pub enum RequestView {
    OpenProcess { desired_access: u32, process_id: u32 },
    CloseHandle { handle: usize },
    QueryRegion { handle: usize, address: usize },
    SetProtection { handle: usize, address: usize, size: usize, protection: u32 },
    ReadBytes { handle: usize, address: usize, size: usize },
    WriteBytes { handle: usize, address: usize, bytes: Seq<u8> },
    QueryBitness { handle: usize },
    QueryModule { handle: usize, module: usize },
    ListProcesses,
    ListModules { process_id: u32 },
}

impl View for Request {
    type V = RequestView;

    open spec fn view(&self) -> RequestView {
        match *self {
            Request::OpenProcess { desired_access, process_id } => RequestView::OpenProcess {
                desired_access,
                process_id,
            },
            Request::CloseHandle { handle } => RequestView::CloseHandle { handle },
            Request::QueryRegion { handle, address } => RequestView::QueryRegion {
                handle,
                address,
            },
            Request::SetProtection { handle, address, size, protection } => {
                RequestView::SetProtection { handle, address, size, protection }
            },
            Request::ReadBytes { handle, address, size } => RequestView::ReadBytes {
                handle,
                address,
                size,
            },
            Request::WriteBytes { handle, address, bytes } => RequestView::WriteBytes {
                handle,
                address,
                bytes: bytes@,
            },
            Request::QueryBitness { handle } => RequestView::QueryBitness { handle },
            Request::QueryModule { handle, module } => RequestView::QueryModule { handle, module },
            Request::ListProcesses => RequestView::ListProcesses,
            Request::ListModules { process_id } => RequestView::ListModules { process_id },
        }
    }
}

/// What the operating system answered.
#[derive(Clone, Debug, PartialEq, Eq)]
pub enum Reply {
    /// The call reported failure.
    Failed,
    /// The handle of the opened process; zero is no handle.
    Handle(usize),
    /// The handle was released.
    Closed,
    /// The state of the queried page.
    Region(MemoryRegionInfo),
    /// The protection was set; this one was in force before.
    Protection(u32),
    /// The bytes that were copied out of the target.
    Bytes(Vec<u8>),
    /// The bytes were copied into the target.
    Written,
    /// Whether the target runs with 32-bit pointers.
    Bitness(bool),
    /// What is known of the module.
    Module(ModuleInformation),
    /// The running processes, in the order in which the system lists them.
    Processes(Vec<ProcessEntry>),
    /// The loaded modules, in the order in which the system lists them.
    Modules(Vec<ModuleEntry>),
}

/// A reply as a mathematical value.
pub enum ReplyView {
    Failed,
    Handle(usize),
    Closed,
    Region(MemoryRegionInfo),
    Protection(u32),
    Bytes(Seq<u8>),
    Written,
    Bitness(bool),
    Module { name: Seq<u8>, base_address: usize, size: u32 },
    Processes(Seq<ProcessEntry>),
    Modules(Seq<ModuleEntry>),
}

impl View for Reply {
    type V = ReplyView;

    open spec fn view(&self) -> ReplyView {
        match *self {
            Reply::Failed => ReplyView::Failed,
            Reply::Handle(handle) => ReplyView::Handle(handle),
            Reply::Closed => ReplyView::Closed,
            Reply::Region(info) => ReplyView::Region(info),
            Reply::Protection(previous) => ReplyView::Protection(previous),
            Reply::Bytes(bytes) => ReplyView::Bytes(bytes@),
            Reply::Written => ReplyView::Written,
            Reply::Bitness(is_32_bit) => ReplyView::Bitness(is_32_bit),
            Reply::Module(information) => ReplyView::Module {
                name: information.name@,
                base_address: information.base_address,
                size: information.size,
            },
            Reply::Processes(processes) => ReplyView::Processes(processes@),
            Reply::Modules(modules) => ReplyView::Modules(modules@),
        }
    }
}

} // verus!

//! Inspecting and changing the memory of another running process: finding
//! the process and one of its modules, finding a byte signature in a
//! snapshot of the module, and reading, writing or patching live memory at
//! addresses that follow from it.
//!
//! The library never calls the operating system. What needs the system is
//! an [`operation::Operation`]: a state machine that names one call at a
//! time as a [`protocol::Request`] and takes the answer as a
//! [`protocol::Reply`]. Whoever drives it makes the calls; every decision in
//! between is made, and proved, here. An operation on an open process
//! borrows its [`operation::ProcessHandle`], and closing uses the handle up:
//! nothing can be asked under a handle that was released.
//!
//! - [`pattern`]: signatures, and the scan for the first match
//! - [`engine`]: the same search by the regular-expression engine
//! - [`codec`]: integers and addresses as little-endian bytes
//! - [`protocol`]: requests and replies
//! - [`operation`]: the state machine behind every operation
//! - [`process`]: finding, opening and closing a process; finding a
//!   module; guarded reads; scans relative to a module
//! - [`module`]: the snapshot of a module
//! - [`readmem`], [`writemem`]: typed reads and writes, pointer chains,
//!   patches
//! - [`settings`]: the switch and its patch
//! - [`target`]: a model of a quiescent target, and what the operations
//!   achieve on it
//! - [`error`]: the ways in which an operation can fail

pub mod codec;
pub mod engine;
pub mod error;
pub mod module;
pub mod operation;
pub mod pattern;
pub mod process;
pub mod protocol;
pub mod readmem;
pub mod settings;
pub mod target;
pub mod writemem;

//! Reading from the target: bytes, integers, and the address at the end of
//! a pointer chain.

use crate::codec::ValueKind;
use crate::operation::{Form, Operation, OperationView, OutcomeView, ProcessHandle, ReadPlan};
use vstd::prelude::*;

verus! {

/// The plan of a read of `amount` bytes at `address`.
pub open spec fn bytes_plan(handle: usize, address: usize, amount: usize) -> ReadPlan {
    ReadPlan { handle, address, size: amount, form: Form::Bytes }
}

/// The plan of a read of one value of the given kind at `address`.
pub open spec fn value_plan(handle: usize, address: usize, kind: ValueKind) -> ReadPlan {
    ReadPlan { handle, address, size: kind.width() as usize, form: Form::Value(kind) }
}

/// Reads `amount` bytes at `address`.
pub fn read_bytes(handle: &ProcessHandle, address: usize, amount: usize) -> (operation: Operation<'_>)
    ensures
        operation@ == (OperationView::Copying {
            plan: bytes_plan(handle@, address, amount),
            previous: None,
        }),
{
    Operation::plain_read(handle, address, amount, Form::Bytes)
}

/// Reads an `i64` at `address`.
pub fn read_i64(handle: &ProcessHandle, address: usize) -> (operation: Operation<'_>)
    ensures
        operation@ == (OperationView::Copying {
            plan: value_plan(handle@, address, ValueKind::I64),
            previous: None,
        }),
{
    read_primitive(handle, address, ValueKind::I64)
}

/// Reads an `i32` at `address`.
pub fn read_i32(handle: &ProcessHandle, address: usize) -> (operation: Operation<'_>)
    ensures
        operation@ == (OperationView::Copying {
            plan: value_plan(handle@, address, ValueKind::I32),
            previous: None,
        }),
{
    read_primitive(handle, address, ValueKind::I32)
}

/// Reads an `i16` at `address`.
pub fn read_i16(handle: &ProcessHandle, address: usize) -> (operation: Operation<'_>)
    ensures
        operation@ == (OperationView::Copying {
            plan: value_plan(handle@, address, ValueKind::I16),
            previous: None,
        }),
{
    read_primitive(handle, address, ValueKind::I16)
}

/// Reads an `i8` at `address`.
pub fn read_i8(handle: &ProcessHandle, address: usize) -> (operation: Operation<'_>)
    ensures
        operation@ == (OperationView::Copying {
            plan: value_plan(handle@, address, ValueKind::I8),
            previous: None,
        }),
{
    read_primitive(handle, address, ValueKind::I8)
}

/// Reads a `u64` at `address`.
pub fn read_u64(handle: &ProcessHandle, address: usize) -> (operation: Operation<'_>)
    ensures
        operation@ == (OperationView::Copying {
            plan: value_plan(handle@, address, ValueKind::U64),
            previous: None,
        }),
{
    read_primitive(handle, address, ValueKind::U64)
}

/// Reads a `u32` at `address`.
pub fn read_u32(handle: &ProcessHandle, address: usize) -> (operation: Operation<'_>)
    ensures
        operation@ == (OperationView::Copying {
            plan: value_plan(handle@, address, ValueKind::U32),
            previous: None,
        }),
{
    read_primitive(handle, address, ValueKind::U32)
}

/// Reads a `u16` at `address`.
pub fn read_u16(handle: &ProcessHandle, address: usize) -> (operation: Operation<'_>)
    ensures
        operation@ == (OperationView::Copying {
            plan: value_plan(handle@, address, ValueKind::U16),
            previous: None,
        }),
{
    read_primitive(handle, address, ValueKind::U16)
}

/// Reads a `u8` at `address`.
pub fn read_u8(handle: &ProcessHandle, address: usize) -> (operation: Operation<'_>)
    ensures
        operation@ == (OperationView::Copying {
            plan: value_plan(handle@, address, ValueKind::U8),
            previous: None,
        }),
{
    read_primitive(handle, address, ValueKind::U8)
}

/// Reads one value of the given kind at `address`.
pub fn read_primitive(handle: &ProcessHandle, address: usize, kind: ValueKind) -> (operation:
    Operation<'_>)
    ensures
        operation@ == (OperationView::Copying {
            plan: value_plan(handle@, address, kind),
            previous: None,
        }),
{
    Operation::plain_read(handle, address, kind.size(), Form::Value(kind))
}

/// Walks a pointer chain: for each offset in turn, reads the pointer at the
/// current address and adds the offset to it. The address after the last
/// offset is the result; it is not read. Without offsets the result is
/// `base_ptr`, and the target is not asked anything.
pub fn resolve_multi_level_pointer(
    handle: &ProcessHandle,
    base_ptr: usize,
    offsets: Vec<usize>,
) -> (operation: Operation<'_>)
    ensures
        operation@ == if offsets@.len() == 0 {
            OperationView::Finished { ending: Ok(OutcomeView::Address(base_ptr)) }
        } else {
            OperationView::Sizing { handle: handle@, address: base_ptr, offsets: offsets@ }
        },
{
    Operation::walk(handle, base_ptr, offsets)
}

} // verus!

//! Writing into the target: bytes, integers, and patches of protected code.

use crate::codec::{encode, Value};
use crate::operation::{Operation, OperationView, ProcessHandle};
use vstd::prelude::*;

verus! {

/// The instruction that does nothing, one byte long.
pub const NOP: u8 = 0x90;

/// Writes `bytes` at `address`.
pub fn write_bytes(handle: &ProcessHandle, address: usize, bytes: Vec<u8>) -> (operation: Operation<'_>)
    ensures
        operation@ == (OperationView::Writing {
            handle: handle@,
            address,
            bytes: bytes@,
            previous: None,
            close: false,
        }),
{
    Operation::plain_write(handle, address, bytes)
}

/// Writes an `i64` at `address`.
pub fn write_i64(handle: &ProcessHandle, address: usize, to_write: i64) -> (operation: Operation<'_>)
    ensures
        operation@ == (OperationView::Writing {
            handle: handle@,
            address,
            bytes: Value::I64(to_write).bytes(),
            previous: None,
            close: false,
        }),
{
    write_primitive(handle, address, Value::I64(to_write))
}

/// Writes an `i32` at `address`.
pub fn write_i32(handle: &ProcessHandle, address: usize, to_write: i32) -> (operation: Operation<'_>)
    ensures
        operation@ == (OperationView::Writing {
            handle: handle@,
            address,
            bytes: Value::I32(to_write).bytes(),
            previous: None,
            close: false,
        }),
{
    write_primitive(handle, address, Value::I32(to_write))
}

/// Writes an `i16` at `address`.
pub fn write_i16(handle: &ProcessHandle, address: usize, to_write: i16) -> (operation: Operation<'_>)
    ensures
        operation@ == (OperationView::Writing {
            handle: handle@,
            address,
            bytes: Value::I16(to_write).bytes(),
            previous: None,
            close: false,
        }),
{
    write_primitive(handle, address, Value::I16(to_write))
}

/// Writes an `i8` at `address`.
pub fn write_i8(handle: &ProcessHandle, address: usize, to_write: i8) -> (operation: Operation<'_>)
    ensures
        operation@ == (OperationView::Writing {
            handle: handle@,
            address,
            bytes: Value::I8(to_write).bytes(),
            previous: None,
            close: false,
        }),
{
    write_primitive(handle, address, Value::I8(to_write))
}

/// Writes a `u64` at `address`.
pub fn write_u64(handle: &ProcessHandle, address: usize, to_write: u64) -> (operation: Operation<'_>)
    ensures
        operation@ == (OperationView::Writing {
            handle: handle@,
            address,
            bytes: Value::U64(to_write).bytes(),
            previous: None,
            close: false,
        }),
{
    write_primitive(handle, address, Value::U64(to_write))
}

/// Writes a `u32` at `address`.
pub fn write_u32(handle: &ProcessHandle, address: usize, to_write: u32) -> (operation: Operation<'_>)
    ensures
        operation@ == (OperationView::Writing {
            handle: handle@,
            address,
            bytes: Value::U32(to_write).bytes(),
            previous: None,
            close: false,
        }),
{
    write_primitive(handle, address, Value::U32(to_write))
}

/// Writes a `u16` at `address`.
pub fn write_u16(handle: &ProcessHandle, address: usize, to_write: u16) -> (operation: Operation<'_>)
    ensures
        operation@ == (OperationView::Writing {
            handle: handle@,
            address,
            bytes: Value::U16(to_write).bytes(),
            previous: None,
            close: false,
        }),
{
    write_primitive(handle, address, Value::U16(to_write))
}

/// Writes a `u8` at `address`.
pub fn write_u8(handle: &ProcessHandle, address: usize, to_write: u8) -> (operation: Operation<'_>)
    ensures
        operation@ == (OperationView::Writing {
            handle: handle@,
            address,
            bytes: Value::U8(to_write).bytes(),
            previous: None,
            close: false,
        }),
{
    write_primitive(handle, address, Value::U8(to_write))
}

/// Writes the little-endian image of a value at `address`.
pub fn write_primitive(handle: &ProcessHandle, address: usize, to_write: Value) -> (operation:
    Operation<'_>)
    ensures
        operation@ == (OperationView::Writing {
            handle: handle@,
            address,
            bytes: to_write.bytes(),
            previous: None,
            close: false,
        }),
{
    Operation::plain_write(handle, address, encode(to_write))
}

/// Overwrites `size` bytes at `address` with instructions that do nothing.
pub fn nop_ex(handle: &ProcessHandle, address: usize, size: usize) -> (operation: Operation<'_>)
    ensures
        operation@ == (OperationView::Unprotecting {
            handle: handle@,
            address,
            bytes: Seq::new(size as nat, |i: int| NOP),
            close: false,
        }),
{
    let mut nop_array: Vec<u8> = Vec::new();
    let mut i: usize = 0;
    while i < size
        invariant
            i <= size,
            nop_array@ == Seq::new(i as nat, |i: int| NOP),
        decreases size - i,
    {
        nop_array.push(NOP);
        assert(nop_array@ =~= Seq::new((i + 1) as nat, |i: int| NOP));
        i = i + 1;
    }
    patch_ex(handle, address, nop_array)
}

/// Patches `bytes` in at `address`: makes the range writable and
/// executable, writes, and puts back the protection that was there before,
/// whether or not the write went well.
pub fn patch_ex(handle: &ProcessHandle, address: usize, bytes: Vec<u8>) -> (operation: Operation<'_>)
    ensures
        operation@ == (OperationView::Unprotecting {
            handle: handle@,
            address,
            bytes: bytes@,
            close: false,
        }),
{
    Operation::guarded_write(handle, address, bytes)
}

} // verus!

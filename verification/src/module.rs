//! The image of a loaded module: a copy of its bytes, taken once, in which
//! offsets are found that are then applied to the live process.

use crate::error::MemoryError;
use crate::operation::{Operation, OperationView, ProcessHandle};
use vstd::prelude::*;
use vstd::string::StringSliceAdditionalSpecFns;
use vstd::utf8::{decode_utf8, valid_utf8};

verus! {

broadcast use vstd::utf8::encode_utf8_decode_utf8;

/// `core::str::Utf8Error`: why bytes are no UTF-8 text.
#[verifier::external_type_specification]
#[verifier::external_body]
pub struct ExUtf8Error(core::str::Utf8Error);

/// `core::str::from_utf8`: the bytes as text where they are valid UTF-8,
/// an error where they are not.
pub assume_specification[ core::str::from_utf8 ](bytes: &[u8]) -> (r: Result<
    &str,
    core::str::Utf8Error,
>)
    ensures
        r is Ok <==> valid_utf8(bytes@),
        r matches Ok(text) ==> text.spec_bytes() == bytes@,
;

/// The most bytes that a name is read for.
pub const NAME_LIMIT: usize = 500;

/// A snapshot of a module.
#[derive(Clone, Debug, PartialEq, Eq)]
pub struct Module {
    pub name: String,
    pub handle: usize,
    pub size: u32,
    pub base_address: usize,
    pub data: Vec<u8>,
}

/// A snapshot as a mathematical value.
pub struct ModuleView {
    pub name: Seq<char>,
    pub handle: usize,
    pub size: u32,
    pub base_address: usize,
    pub data: Seq<u8>,
}

impl View for Module {
    type V = ModuleView;

    open spec fn view(&self) -> ModuleView {
        ModuleView {
            name: self.name@,
            handle: self.handle,
            size: self.size,
            base_address: self.base_address,
            data: self.data@,
        }
    }
}

/// What the operating system tells of a loaded module: its name as a
/// zero-terminated buffer, where it is loaded and how large its image is.
#[derive(Clone, Debug, PartialEq, Eq)]
pub struct ModuleInformation {
    pub name: Vec<u8>,
    pub base_address: usize,
    pub size: u32,
}

impl Module {
    /// The copy is exactly as long as the image.
    pub open spec fn wf(&self) -> bool {
        self.data@.len() == self.size
    }
}

/// The number of bytes before the first zero byte, counting no further than
/// `limit` and the end of the buffer.
pub open spec fn text_len(buffer: Seq<u8>, limit: nat) -> nat
    decreases buffer.len(),
{
    if buffer.len() == 0 || limit == 0 || buffer[0] == 0 {
        0
    } else {
        1 + text_len(buffer.drop_first(), (limit - 1) as nat)
    }
}

/// The bytes before the first zero byte.
pub open spec fn terminated(buffer: Seq<u8>, limit: nat) -> Seq<u8> {
    buffer.take(text_len(buffer, limit) as int)
}

/// `text_len` stays inside the buffer and the limit, counts no zero byte,
/// and stops only at a zero byte, at the limit or at the end.
pub proof fn lemma_text_len(buffer: Seq<u8>, limit: nat)
    ensures
        text_len(buffer, limit) <= buffer.len(),
        text_len(buffer, limit) <= limit,
        forall|i: int| 0 <= i < text_len(buffer, limit) ==> buffer[i] != 0,
        text_len(buffer, limit) < buffer.len() && text_len(buffer, limit) < limit ==> buffer[text_len(
            buffer,
            limit,
        ) as int] == 0,
    decreases buffer.len(),
{
    if buffer.len() == 0 || limit == 0 || buffer[0] == 0 {
    } else {
        let rest = buffer.drop_first();
        lemma_text_len(rest, (limit - 1) as nat);
        assert forall|i: int| 0 <= i < text_len(buffer, limit) implies buffer[i] != 0 by {
            if i > 0 {
                assert(buffer[i] == rest[i - 1]);
            }
        }
        let n = text_len(rest, (limit - 1) as nat) as int;
        if n + 1 < buffer.len() && n + 1 < limit {
            assert(buffer[n + 1] == rest[n]);
        }
    }
}

/// A count that meets what `lemma_text_len` states is `text_len`.
pub proof fn lemma_text_len_is(buffer: Seq<u8>, limit: nat, n: nat)
    requires
        n <= buffer.len(),
        n <= limit,
        forall|i: int| 0 <= i < n ==> buffer[i] != 0,
        n < buffer.len() && n < limit ==> buffer[n as int] == 0,
    ensures
        text_len(buffer, limit) == n,
    decreases buffer.len(),
{
    if buffer.len() == 0 || limit == 0 || buffer[0] == 0 {
    } else {
        let rest = buffer.drop_first();
        assert forall|i: int| 0 <= i < n - 1 implies rest[i] != 0 by {
            assert(rest[i] == buffer[i + 1]);
        }
        if n - 1 < rest.len() && n - 1 < limit - 1 {
            assert(rest[n - 1] == buffer[n as int]);
        }
        lemma_text_len_is(rest, (limit - 1) as nat, (n - 1) as nat);
    }
}

/// Counts the bytes before the first zero byte, no further than `limit`.
pub fn terminated_len(buffer: &[u8], limit: usize) -> (n: usize)
    ensures
        n == text_len(buffer@, limit as nat),
{
    let mut n: usize = 0;
    while n < buffer.len() && n < limit && buffer[n] != 0
        invariant
            n <= buffer@.len(),
            n <= limit,
            forall|i: int| 0 <= i < n ==> buffer@[i] != 0,
        decreases buffer@.len() - n,
    {
        n = n + 1;
    }
    proof {
        lemma_text_len_is(buffer@, limit as nat, n as nat);
    }
    n
}

fn prefix(buffer: &[u8], n: usize) -> (copy: Vec<u8>)
    requires
        n <= buffer@.len(),
    ensures
        copy@ == buffer@.take(n as int),
{
    let mut copy: Vec<u8> = Vec::new();
    let mut i: usize = 0;
    while i < n
        invariant
            i <= n <= buffer@.len(),
            copy@ == buffer@.take(i as int),
        decreases n - i,
    {
        copy.push(buffer[i]);
        assert(copy@ =~= buffer@.take(i + 1));
        i = i + 1;
    }
    copy
}

/// Reads a zero-terminated name out of a buffer: the bytes before the
/// first zero byte, at most 500 of them, as text. They must be valid UTF-8.
pub fn read_null_terminated_string(buffer: &[u8]) -> (r: Result<String, core::str::Utf8Error>)
    ensures
        r is Ok <==> valid_utf8(terminated(buffer@, NAME_LIMIT as nat)),
        r matches Ok(text) ==> text@ == decode_utf8(terminated(buffer@, NAME_LIMIT as nat)),
{
    let n = terminated_len(buffer, NAME_LIMIT);
    proof {
        lemma_text_len(buffer@, NAME_LIMIT as nat);
    }
    let bytes = prefix(buffer, n);
    match core::str::from_utf8(bytes.as_slice()) {
        Ok(text) => Ok(text.to_owned()),
        Err(error) => Err(error),
    }
}

/// The snapshot that comes of what the operating system told of a module
/// and of the bytes that were copied from where it is loaded. A copy that
/// is not exactly as long as the image is a failed read; a name that is no
/// text names no module.
pub open spec fn assembled(
    handle: usize,
    name: Seq<u8>,
    base_address: usize,
    size: u32,
    data: Seq<u8>,
) -> Result<ModuleView, MemoryError> {
    if data.len() != size {
        Err(MemoryError::ReadFailure)
    } else if !valid_utf8(terminated(name, NAME_LIMIT as nat)) {
        Err(MemoryError::ModuleNotFound)
    } else {
        Ok(
            ModuleView {
                name: decode_utf8(terminated(name, NAME_LIMIT as nat)),
                handle,
                size,
                base_address,
                data,
            },
        )
    }
}

impl Module {
    /// Makes the snapshot of a module from what the operating system told
    /// of it and the bytes that were copied from where it is loaded.
    pub fn assemble(handle: usize, information: ModuleInformation, data: Vec<u8>) -> (r: Result<
        Module,
        MemoryError,
    >)
        ensures
            match r {
                Ok(module) => module.wf() && Ok::<ModuleView, MemoryError>(module@) == assembled(
                    handle,
                    information.name@,
                    information.base_address,
                    information.size,
                    data@,
                ),
                Err(error) => Err::<ModuleView, MemoryError>(error) == assembled(
                    handle,
                    information.name@,
                    information.base_address,
                    information.size,
                    data@,
                ),
            },
    {
        if data.len() != information.size as usize {
            return Err(MemoryError::ReadFailure);
        }
        match read_null_terminated_string(information.name.as_slice()) {
            Ok(name) => Ok(
                Module {
                    name,
                    handle,
                    size: information.size,
                    base_address: information.base_address,
                    data,
                },
            ),
            Err(_) => Err(MemoryError::ModuleNotFound),
        }
    }
}

/// Takes the snapshot of a module of the process: asks where the module is
/// loaded and how large its image is, and copies exactly that many bytes
/// from there.
pub fn from_handle(process: &ProcessHandle, handle: usize) -> (operation: Operation<'_>)
    ensures
        operation@ == (OperationView::Locating { handle: process@, module: handle }),
{
    Operation::snapshot(process, handle)
}

} // verus!

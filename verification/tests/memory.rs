use procmem::codec::{Value, ValueKind};
use procmem::error::MemoryError;
use procmem::module::{from_handle, Module, ModuleInformation};
use procmem::operation::{Form, Operation, Outcome, ProcessHandle};
use procmem::process::{
    close_handle, get_module_base, get_process_id, open_process, pattern_scan, pattern_scan_at,
    read, ModuleEntry, ProcessEntry,
};
use procmem::protocol::{
    MemoryRegionInfo, Reply, Request, MEM_COMMIT, PAGE_EXECUTE_READWRITE, PAGE_NOACCESS,
    PAGE_READWRITE, POINTER_WINDOW, PROCESS_ALL_ACCESS,
};
use procmem::readmem::{
    read_bytes, read_i16, read_i32, read_i64, read_i8, read_primitive, read_u16, read_u32,
    read_u64, read_u8, resolve_multi_level_pointer,
};
use procmem::settings::{Settings, Toggleable, MAYA_PURPLE_OFFSET};
use procmem::writemem::{
    nop_ex, patch_ex, write_bytes, write_i16, write_i32, write_i64, write_i8, write_primitive,
    write_u16, write_u32, write_u64, write_u8,
};

const PAGE: usize = 4096;
const PAGE_READONLY: u32 = 0x02;
const PAGE_EXECUTE: u32 = 0x10;
const PAGE_EXECUTE_READ: u32 = 0x20;
const MEM_FREE: u32 = 0x10000;
const HANDLE: usize = 0x1f4;
const PID: u32 = 4242;

/// A process that nothing else touches: some pages of memory from `base`,
/// each with a state and a protection.
struct FakeProcess {
    is_32_bit: bool,
    base: usize,
    memory: Vec<u8>,
    state: Vec<u32>,
    protection: Vec<u32>,
    running: Vec<ProcessEntry>,
    listed: Vec<ModuleEntry>,
    modules: Vec<(usize, ModuleInformation)>,
    requests: Vec<Request>,
}

impl FakeProcess {
    fn new(base: usize, pages: usize, protection: u32) -> FakeProcess {
        assert_eq!(base % PAGE, 0);
        FakeProcess {
            is_32_bit: false,
            base,
            memory: vec![0; pages * PAGE],
            state: vec![MEM_COMMIT; pages],
            protection: vec![protection; pages],
            running: Vec::new(),
            listed: Vec::new(),
            modules: Vec::new(),
            requests: Vec::new(),
        }
    }

    fn pages(&self, address: usize, size: usize) -> Option<Vec<usize>> {
        if size == 0 {
            return Some(Vec::new());
        }
        let first = address / PAGE;
        let last = (address + size - 1) / PAGE;
        let mut pages = Vec::new();
        for page in first..=last {
            let index = page.checked_sub(self.base / PAGE)?;
            if index >= self.state.len() || self.state[index] != MEM_COMMIT {
                return None;
            }
            pages.push(index);
        }
        Some(pages)
    }

    fn all_allow(&self, address: usize, size: usize, allowed: &[u32]) -> bool {
        match self.pages(address, size) {
            Some(pages) => pages.iter().all(|&page| allowed.contains(&self.protection[page])),
            None => false,
        }
    }

    fn protection_at(&self, address: usize) -> u32 {
        self.protection[(address - self.base) / PAGE]
    }

    fn poke(&mut self, address: usize, bytes: &[u8]) {
        let start = address - self.base;
        self.memory[start..start + bytes.len()].copy_from_slice(bytes);
    }

    fn peek(&self, address: usize, size: usize) -> Vec<u8> {
        let start = address - self.base;
        self.memory[start..start + size].to_vec()
    }

    fn respond(&mut self, request: Request) -> Reply {
        self.requests.push(request.clone());
        match request {
            Request::OpenProcess { process_id, .. } => {
                if process_id == PID {
                    Reply::Handle(HANDLE)
                } else {
                    Reply::Failed
                }
            }
            Request::CloseHandle { .. } => Reply::Closed,
            Request::QueryRegion { handle, address } => {
                if handle != HANDLE {
                    return Reply::Failed;
                }
                let page = (address / PAGE).wrapping_sub(self.base / PAGE);
                if page < self.state.len() {
                    Reply::Region(MemoryRegionInfo {
                        state: self.state[page],
                        protect: self.protection[page],
                    })
                } else {
                    Reply::Region(MemoryRegionInfo { state: MEM_FREE, protect: 0 })
                }
            }
            Request::SetProtection { handle, address, size, protection } => {
                if handle != HANDLE || size == 0 {
                    return Reply::Failed;
                }
                match self.pages(address, size) {
                    Some(pages) => {
                        let previous = self.protection[pages[0]];
                        for page in pages {
                            self.protection[page] = protection;
                        }
                        Reply::Protection(previous)
                    }
                    None => Reply::Failed,
                }
            }
            Request::ReadBytes { handle, address, size } => {
                let readable = [0x02, 0x04, 0x08, 0x20, 0x40, 0x80];
                if handle == HANDLE && self.all_allow(address, size, &readable) {
                    Reply::Bytes(if size == 0 { Vec::new() } else { self.peek(address, size) })
                } else {
                    Reply::Failed
                }
            }
            Request::WriteBytes { handle, address, bytes } => {
                let writable = [0x04, 0x08, 0x40, 0x80];
                if handle == HANDLE && self.all_allow(address, bytes.len(), &writable) {
                    if !bytes.is_empty() {
                        self.poke(address, &bytes);
                    }
                    Reply::Written
                } else {
                    Reply::Failed
                }
            }
            Request::QueryBitness { handle } => {
                if handle == HANDLE {
                    Reply::Bitness(self.is_32_bit)
                } else {
                    Reply::Failed
                }
            }
            Request::QueryModule { handle, module } => {
                let known = self.modules.iter().find(|(id, _)| *id == module);
                match known {
                    Some((_, information)) if handle == HANDLE => Reply::Module(information.clone()),
                    _ => Reply::Failed,
                }
            }
            Request::ListProcesses => Reply::Processes(self.running.clone()),
            Request::ListModules { process_id } => {
                if process_id == PID {
                    Reply::Modules(self.listed.clone())
                } else {
                    Reply::Failed
                }
            }
        }
    }

    fn run(&mut self, operation: Operation) -> Result<Outcome, MemoryError> {
        let mut operation = operation;
        let mut steps = 0;
        while let Some(request) = operation.request() {
            assert!(!operation.is_finished());
            let reply = self.respond(request);
            operation = operation.resume(reply);
            steps += 1;
            assert!(steps < 1000, "the operation does not end");
        }
        assert!(operation.is_finished());
        operation.finish().expect("an operation without a request has finished")
    }
}

/// Drives an operation with replies that are given beforehand.
fn script(operation: Operation, replies: Vec<Reply>) -> (Vec<Request>, Result<Outcome, MemoryError>) {
    let mut operation = operation;
    let mut requests = Vec::new();
    let mut replies = replies.into_iter();
    while let Some(request) = operation.request() {
        requests.push(request);
        let reply = replies.next().expect("the operation asks for more than the script holds");
        operation = operation.resume(reply);
    }
    assert!(replies.next().is_none(), "the operation ended before the script did");
    (requests, operation.finish().expect("finished"))
}

fn handle() -> ProcessHandle {
    ProcessHandle::from_raw(HANDLE).expect("a handle that is not zero")
}

fn c_buffer(name: &str, len: usize) -> Vec<u8> {
    let mut buffer = name.as_bytes().to_vec();
    buffer.push(0);
    while buffer.len() < len {
        buffer.push(0xcc);
    }
    buffer
}

fn module_at(base_address: usize, data: Vec<u8>) -> Module {
    Module {
        name: String::from("game.exe"),
        handle: 0x40_0000,
        size: data.len() as u32,
        base_address,
        data,
    }
}

#[test]
fn a_handle_is_never_zero() {
    assert!(ProcessHandle::from_raw(0).is_none());
    assert_eq!(ProcessHandle::from_raw(7).map(|handle| handle.raw()), Some(7));
}

#[test]
fn bytes_that_were_written_are_read_back() {
    let h = handle();
    let mut process = FakeProcess::new(0x20_0000, 2, PAGE_READWRITE);
    let bytes = vec![0xde, 0xad, 0x00, 0xbe, 0xef];
    let address = 0x20_0000 + PAGE - 2;
    assert_eq!(process.run(write_bytes(&h, address, bytes.clone())), Ok(Outcome::Done));
    assert_eq!(
        process.run(read_bytes(&h, address, bytes.len())),
        Ok(Outcome::Bytes(bytes.clone()))
    );
    assert_eq!(
        process.requests,
        vec![
            Request::WriteBytes { handle: HANDLE, address, bytes },
            Request::ReadBytes { handle: HANDLE, address, size: 5 },
        ]
    );
}

#[test]
fn values_that_were_written_are_read_back() {
    let h = handle();
    let mut process = FakeProcess::new(0x20_0000, 1, PAGE_READWRITE);
    let h = handle();
    let at = 0x20_0100;
    for value in [i64::MIN, -1, 0, 1, 0x0102_0304_0506_0708, i64::MAX] {
        assert_eq!(process.run(write_i64(&h, at, value)), Ok(Outcome::Done));
        assert_eq!(process.run(read_i64(&h, at)), Ok(Outcome::Value(Value::I64(value))));
    }
    for value in [i32::MIN, -2, 0, 0x0102_0304, i32::MAX] {
        assert_eq!(process.run(write_i32(&h, at, value)), Ok(Outcome::Done));
        assert_eq!(process.run(read_i32(&h, at)), Ok(Outcome::Value(Value::I32(value))));
    }
    for value in [i16::MIN, -3, 0, 0x0102, i16::MAX] {
        assert_eq!(process.run(write_i16(&h, at, value)), Ok(Outcome::Done));
        assert_eq!(process.run(read_i16(&h, at)), Ok(Outcome::Value(Value::I16(value))));
    }
    for value in [i8::MIN, -4, 0, 5, i8::MAX] {
        assert_eq!(process.run(write_i8(&h, at, value)), Ok(Outcome::Done));
        assert_eq!(process.run(read_i8(&h, at)), Ok(Outcome::Value(Value::I8(value))));
    }
    for value in [0, 1, 0x0102_0304_0506_0708, u64::MAX] {
        assert_eq!(process.run(write_u64(&h, at, value)), Ok(Outcome::Done));
        assert_eq!(process.run(read_u64(&h, at)), Ok(Outcome::Value(Value::U64(value))));
    }
    for value in [0, 1, 0x8000_0000, u32::MAX] {
        assert_eq!(process.run(write_u32(&h, at, value)), Ok(Outcome::Done));
        assert_eq!(process.run(read_u32(&h, at)), Ok(Outcome::Value(Value::U32(value))));
    }
    for value in [0, 1, 0x8000, u16::MAX] {
        assert_eq!(process.run(write_u16(&h, at, value)), Ok(Outcome::Done));
        assert_eq!(process.run(read_u16(&h, at)), Ok(Outcome::Value(Value::U16(value))));
    }
    for value in [0, 1, 0x80, u8::MAX] {
        assert_eq!(process.run(write_u8(&h, at, value)), Ok(Outcome::Done));
        assert_eq!(process.run(read_u8(&h, at)), Ok(Outcome::Value(Value::U8(value))));
    }
}

#[test]
fn values_lie_in_memory_least_significant_byte_first() {
    let h = handle();
    let mut process = FakeProcess::new(0x20_0000, 1, PAGE_READWRITE);
    let h = handle();
    assert_eq!(process.run(write_u32(&h, 0x20_0010, 0x1234_5678)), Ok(Outcome::Done));
    assert_eq!(process.peek(0x20_0010, 4), vec![0x78, 0x56, 0x34, 0x12]);
    assert_eq!(process.run(write_i16(&h, 0x20_0020, -2)), Ok(Outcome::Done));
    assert_eq!(process.peek(0x20_0020, 2), vec![0xfe, 0xff]);
    assert_eq!(
        process.run(write_primitive(&h, 0x20_0030, Value::I64(-0x0102_0304_0506_0708))),
        Ok(Outcome::Done)
    );
    assert_eq!(
        process.peek(0x20_0030, 8),
        vec![0xf8, 0xf8, 0xf9, 0xfa, 0xfb, 0xfc, 0xfd, 0xfe]
    );
    process.poke(0x20_0040, &[0x50, 0x00, 0x01, 0x00, 0xff, 0xff, 0xff, 0xff]);
    assert_eq!(process.run(read_u32(&h, 0x20_0040)), Ok(Outcome::Value(Value::U32(0x1_0050))));
    assert_eq!(process.run(read_i32(&h, 0x20_0044)), Ok(Outcome::Value(Value::I32(-1))));
    assert_eq!(
        process.run(read_primitive(&h, 0x20_0040, ValueKind::U64)),
        Ok(Outcome::Value(Value::U64(0xffff_ffff_0001_0050)))
    );
}

#[test]
fn a_read_of_a_page_that_cannot_be_read_fails() {
    let h = handle();
    let mut process = FakeProcess::new(0x20_0000, 1, PAGE_NOACCESS);
    assert_eq!(
        process.run(read_bytes(&h, 0x20_0000, 4)),
        Err(MemoryError::ReadFailure)
    );
    assert_eq!(process.run(read_u32(&h, 0x20_0000)), Err(MemoryError::ReadFailure));
    assert_eq!(process.protection_at(0x20_0000), PAGE_NOACCESS);
}

#[test]
fn a_short_copy_is_a_failed_read() {
    let h = handle();
    let (_, result) = script(read_bytes(&h, 0x1000, 4), vec![Reply::Bytes(vec![1, 2, 3])]);
    assert_eq!(result, Err(MemoryError::ReadFailure));
    let (_, result) = script(read_u16(&h, 0x1000), vec![Reply::Bytes(vec![1, 2, 3])]);
    assert_eq!(result, Err(MemoryError::ReadFailure));
    let (_, result) = script(read_u16(&h, 0x1000), vec![Reply::Written]);
    assert_eq!(result, Err(MemoryError::ReadFailure));
}

#[test]
fn a_write_to_a_page_that_cannot_be_written_fails() {
    let h = handle();
    let mut process = FakeProcess::new(0x20_0000, 1, PAGE_READONLY);
    assert_eq!(
        process.run(write_bytes(&h, 0x20_0000, vec![1, 2, 3])),
        Err(MemoryError::WriteFailure)
    );
    assert_eq!(process.run(write_u8(&h, 0x20_0000, 9)), Err(MemoryError::WriteFailure));
    assert_eq!(process.peek(0x20_0000, 3), vec![0, 0, 0]);
    assert_eq!(process.protection_at(0x20_0000), PAGE_READONLY);
}

#[test]
fn a_guarded_read_of_a_readable_page_copies_at_once() {
    let h = handle();
    let mut process = FakeProcess::new(0x20_0000, 1, PAGE_READONLY);
    process.poke(0x20_0008, &[1, 2, 3, 4]);
    assert_eq!(
        process.run(read(&h, 0x20_0008, 4)),
        Ok(Outcome::Bytes(vec![1, 2, 3, 4]))
    );
    assert_eq!(
        process.requests,
        vec![
            Request::QueryRegion { handle: HANDLE, address: 0x20_0008 },
            Request::ReadBytes { handle: HANDLE, address: 0x20_0008, size: 4 },
        ]
    );
    assert_eq!(process.protection_at(0x20_0008), PAGE_READONLY);
}

#[test]
fn a_guarded_read_widens_and_restores_the_protection() {
    let h = handle();
    let mut process = FakeProcess::new(0x20_0000, 1, PAGE_NOACCESS);
    process.poke(0x20_0008, &[9, 8, 7, 6]);
    assert_eq!(
        process.run(read(&h, 0x20_0008, 4)),
        Ok(Outcome::Bytes(vec![9, 8, 7, 6]))
    );
    assert_eq!(
        process.requests,
        vec![
            Request::QueryRegion { handle: HANDLE, address: 0x20_0008 },
            Request::SetProtection {
                handle: HANDLE,
                address: 0x20_0008,
                size: POINTER_WINDOW,
                protection: PAGE_READWRITE,
            },
            Request::ReadBytes { handle: HANDLE, address: 0x20_0008, size: 4 },
            Request::SetProtection {
                handle: HANDLE,
                address: 0x20_0008,
                size: POINTER_WINDOW,
                protection: PAGE_NOACCESS,
            },
        ]
    );
    assert_eq!(
        process.respond(Request::QueryRegion { handle: HANDLE, address: 0x20_0008 }),
        Reply::Region(MemoryRegionInfo { state: MEM_COMMIT, protect: PAGE_NOACCESS })
    );
}

#[test]
fn a_guarded_read_restores_the_protection_when_the_copy_fails() {
    let h = handle();
    let mut process = FakeProcess::new(0x20_0000, 2, PAGE_NOACCESS);
    let address = 0x20_0000 + PAGE - 8;
    // The window lies in the first page; the read runs on into the second,
    // which is not widened.
    assert_eq!(process.run(read(&h, address, 16)), Err(MemoryError::ReadFailure));
    assert_eq!(process.requests.len(), 4);
    assert_eq!(
        process.requests[3],
        Request::SetProtection {
            handle: HANDLE,
            address,
            size: POINTER_WINDOW,
            protection: PAGE_NOACCESS,
        }
    );
    assert_eq!(process.protection_at(address), PAGE_NOACCESS);
    assert_eq!(process.protection_at(address + 8), PAGE_NOACCESS);
}

#[test]
fn a_guarded_read_does_not_widen_a_page_that_may_only_be_executed() {
    let h = handle();
    let mut process = FakeProcess::new(0x20_0000, 1, PAGE_EXECUTE);
    assert_eq!(process.run(read(&h, 0x20_0000, 4)), Err(MemoryError::ReadFailure));
    assert_eq!(process.requests.len(), 2);
    assert_eq!(process.protection_at(0x20_0000), PAGE_EXECUTE);
}

#[test]
fn a_guarded_read_reports_each_failure() {
    let h = handle();
    let plan = || read(&h, 0x5000, 4);
    let unreadable = Reply::Region(MemoryRegionInfo { state: MEM_COMMIT, protect: PAGE_NOACCESS });
    let region = || Reply::Region(MemoryRegionInfo { state: MEM_COMMIT, protect: PAGE_NOACCESS });

    let (requests, result) = script(plan(), vec![Reply::Failed]);
    assert_eq!(result, Err(MemoryError::MemoryQueryFailure));
    assert_eq!(requests.len(), 1);

    let (requests, result) = script(plan(), vec![unreadable, Reply::Failed]);
    assert_eq!(result, Err(MemoryError::ProtectionChangeFailure));
    assert_eq!(requests.len(), 2);

    let replies = vec![region(), Reply::Protection(PAGE_NOACCESS), Reply::Failed, Reply::Protection(4)];
    let (requests, result) = script(plan(), replies);
    assert_eq!(result, Err(MemoryError::ReadFailure));
    assert_eq!(requests.len(), 4);

    let replies = vec![
        region(),
        Reply::Protection(PAGE_NOACCESS),
        Reply::Bytes(vec![1, 2, 3, 4]),
        Reply::Failed,
    ];
    let (_, result) = script(plan(), replies);
    assert_eq!(result, Err(MemoryError::ProtectionChangeFailure));

    let replies = vec![region(), Reply::Protection(PAGE_NOACCESS), Reply::Failed, Reply::Failed];
    let (_, result) = script(plan(), replies);
    assert_eq!(result, Err(MemoryError::ReadFailure));
}

#[test]
fn a_patch_writes_and_restores_the_protection() {
    let h = handle();
    let mut process = FakeProcess::new(0x40_0000, 2, PAGE_EXECUTE_READ);
    let address = 0x40_0000 + PAGE - 1;
    assert_eq!(
        process.run(patch_ex(&h, address, vec![0xeb, 0x05, 0x90])),
        Ok(Outcome::Done)
    );
    assert_eq!(process.peek(address, 3), vec![0xeb, 0x05, 0x90]);
    assert_eq!(
        process.requests,
        vec![
            Request::SetProtection {
                handle: HANDLE,
                address,
                size: 3,
                protection: PAGE_EXECUTE_READWRITE,
            },
            Request::WriteBytes { handle: HANDLE, address, bytes: vec![0xeb, 0x05, 0x90] },
            Request::SetProtection {
                handle: HANDLE,
                address,
                size: 3,
                protection: PAGE_EXECUTE_READ,
            },
        ]
    );
    assert_eq!(
        process.respond(Request::QueryRegion { handle: HANDLE, address }),
        Reply::Region(MemoryRegionInfo { state: MEM_COMMIT, protect: PAGE_EXECUTE_READ })
    );
}

#[test]
fn a_patch_restores_the_protection_when_the_write_fails() {
    let h = handle();
    let replies = vec![Reply::Protection(PAGE_EXECUTE_READ), Reply::Failed, Reply::Protection(0x40)];
    let (requests, result) = script(patch_ex(&h, 0x7000, vec![1, 2]), replies);
    assert_eq!(result, Err(MemoryError::WriteFailure));
    assert_eq!(
        requests[2],
        Request::SetProtection {
            handle: HANDLE,
            address: 0x7000,
            size: 2,
            protection: PAGE_EXECUTE_READ,
        }
    );
}

#[test]
fn a_patch_reports_each_failure() {
    let h = handle();
    let (requests, result) = script(patch_ex(&h, 0x7000, vec![1]), vec![Reply::Failed]);
    assert_eq!(result, Err(MemoryError::ProtectionChangeFailure));
    assert_eq!(requests.len(), 1);

    let replies = vec![Reply::Protection(2), Reply::Written, Reply::Failed];
    let (_, result) = script(patch_ex(&h, 0x7000, vec![1]), replies);
    assert_eq!(result, Err(MemoryError::ProtectionChangeFailure));

    let mut process = FakeProcess::new(0x40_0000, 1, PAGE_EXECUTE_READ);
    process.state[0] = MEM_FREE;
    assert_eq!(
        process.run(patch_ex(&h, 0x40_0000, vec![1])),
        Err(MemoryError::ProtectionChangeFailure)
    );
}

#[test]
fn nop_writes_as_many_nops_as_asked_for() {
    let h = handle();
    let mut process = FakeProcess::new(0x40_0000, 1, PAGE_EXECUTE_READ);
    process.poke(0x40_0010, &[1, 2, 3, 4, 5, 6, 7]);
    assert_eq!(process.run(nop_ex(&h, 0x40_0011, 5)), Ok(Outcome::Done));
    assert_eq!(process.peek(0x40_0010, 7), vec![1, 0x90, 0x90, 0x90, 0x90, 0x90, 7]);
    assert_eq!(process.protection_at(0x40_0010), PAGE_EXECUTE_READ);
}

#[test]
fn a_chain_without_offsets_is_its_base() {
    let h = handle();
    let operation = resolve_multi_level_pointer(&h, 0x1234_5678, Vec::new());
    assert!(operation.is_finished());
    assert!(operation.request().is_none());
    assert_eq!(operation.finish(), Some(Ok(Outcome::Address(0x1234_5678))));
}

#[test]
fn a_chain_of_two_offsets_dereferences_twice() {
    let h = handle();
    let mut process = FakeProcess::new(0x50_0000, 2, PAGE_READONLY);
    let base = 0x50_0010;
    let inner: usize = 0x50_0100;
    let outer: usize = 0x50_1f00;
    process.poke(base, &(inner as u64).to_le_bytes());
    process.poke(inner + 0x20, &(outer as u64).to_le_bytes());
    assert_eq!(
        process.run(resolve_multi_level_pointer(&h, base, vec![0x20, 0x48])),
        Ok(Outcome::Address(outer + 0x48))
    );
    assert_eq!(
        process.requests,
        vec![
            Request::QueryBitness { handle: HANDLE },
            Request::ReadBytes { handle: HANDLE, address: base, size: 8 },
            Request::ReadBytes { handle: HANDLE, address: inner + 0x20, size: 8 },
        ]
    );
}

#[test]
fn a_chain_in_a_32_bit_target_reads_four_bytes() {
    let h = handle();
    let mut process = FakeProcess::new(0x50_0000, 1, PAGE_READWRITE);
    process.is_32_bit = true;
    process.poke(0x50_0000, &[0x40, 0x00, 0x50, 0x00, 0xff, 0xff, 0xff, 0xff]);
    process.poke(0x50_0044, &[0x80, 0x00, 0x50, 0x00, 0xee, 0xee, 0xee, 0xee]);
    process.poke(0x50_0088, &[0x01, 0x02, 0x03, 0x04, 0xdd, 0xdd, 0xdd, 0xdd]);
    assert_eq!(
        process.run(resolve_multi_level_pointer(&h, 0x50_0000, vec![4, 8, 0x10])),
        Ok(Outcome::Address(0x0403_0201 + 0x10))
    );
    assert_eq!(process.requests[1], Request::ReadBytes { handle: HANDLE, address: 0x50_0000, size: 4 });
    assert_eq!(process.requests[2], Request::ReadBytes { handle: HANDLE, address: 0x50_0044, size: 4 });
    assert_eq!(process.requests[3], Request::ReadBytes { handle: HANDLE, address: 0x50_0088, size: 4 });
}

#[test]
fn a_chain_wraps_round_at_the_end_of_the_address_space() {
    let h = handle();
    let replies = vec![Reply::Bitness(false), Reply::Bytes(0x1000u64.to_le_bytes().to_vec())];
    let (_, result) =
        script(resolve_multi_level_pointer(&h, 0x10, vec![usize::MAX - 0xf]), replies);
    assert_eq!(result, Ok(Outcome::Address(0xff0)));
}

#[test]
fn a_chain_fails_where_a_pointer_cannot_be_read() {
    let h = handle();
    let mut process = FakeProcess::new(0x50_0000, 1, PAGE_READONLY);
    process.poke(0x50_0000, &0x60_0000u64.to_le_bytes());
    assert_eq!(
        process.run(resolve_multi_level_pointer(&h, 0x50_0000, vec![0, 0])),
        Err(MemoryError::ReadFailure)
    );
    let replies = vec![Reply::Bitness(true), Reply::Bytes(vec![0; 8])];
    let (_, result) = script(resolve_multi_level_pointer(&h, 0x10, vec![1]), replies);
    assert_eq!(result, Err(MemoryError::ReadFailure));
}

#[test]
fn a_chain_fails_where_the_pointer_width_is_not_known() {
    let h = handle();
    let (requests, result) =
        script(resolve_multi_level_pointer(&h, 0x10, vec![1]), vec![Reply::Failed]);
    assert_eq!(result, Err(MemoryError::BitnessQueryFailure));
    assert_eq!(requests, vec![Request::QueryBitness { handle: HANDLE }]);
}

#[test]
fn scenario_scan_gives_the_value_relative_to_the_module() {
    let h = handle();
    let base = 0x1_0000;
    let mut data = vec![0u8; 0x100];
    data[0x20..0x24].copy_from_slice(&[0x8d, 0x34, 0x85, 0x99]);
    let module = module_at(base, data.clone());
    let mut process = FakeProcess::new(base, 1, PAGE_READONLY);
    process.poke(base, &data);
    process.poke(base + 0x24, &0x1_0050u32.to_le_bytes());
    let operation = pattern_scan(&h, &module, "8D 34 85 ?", 4, 0x8, ValueKind::U32);
    assert_eq!(process.run(operation), Ok(Outcome::Value(Value::U32(0x58))));
    assert_eq!(
        process.requests,
        vec![
            Request::QueryRegion { handle: HANDLE, address: base + 0x24 },
            Request::ReadBytes { handle: HANDLE, address: base + 0x24, size: 4 },
        ]
    );
}

#[test]
fn a_scan_reads_the_live_process_not_the_snapshot() {
    let h = handle();
    let base = 0x1_0000;
    let mut data = vec![0u8; 0x40];
    data[0x10..0x12].copy_from_slice(&[0xaa, 0xbb]);
    data[0x12..0x1a].copy_from_slice(&0x1_1111u64.to_le_bytes());
    let module = module_at(base, data);
    let mut process = FakeProcess::new(base, 1, PAGE_NOACCESS);
    process.poke(base + 0x12, &0x1_2345u64.to_le_bytes());
    let operation = pattern_scan(&h, &module, "aa bb", 2, 1, ValueKind::I64);
    assert_eq!(process.run(operation), Ok(Outcome::Value(Value::I64(0x2346))));
    assert_eq!(process.protection_at(base), PAGE_NOACCESS);
}

#[test]
fn a_scan_without_a_match_asks_for_nothing() {
    let h = handle();
    let module = module_at(0x1_0000, vec![0xde, 0xad, 0xbe, 0xee]);
    let operation = pattern_scan(&h, &module, "DE AD BE EF", 4, 8, ValueKind::U32);
    assert!(operation.request().is_none());
    assert_eq!(operation.finish(), Some(Err(MemoryError::PatternNotFound)));
    let operation = pattern_scan(&h, &module, "not a signature", 4, 8, ValueKind::U32);
    assert_eq!(operation.finish(), Some(Err(MemoryError::PatternNotFound)));
    let operation = pattern_scan_at(&h, &module, None, 4, 8, ValueKind::U32);
    assert_eq!(operation.finish(), Some(Err(MemoryError::PatternNotFound)));
}

#[test]
fn a_scan_whose_field_has_no_address_fails() {
    let h = handle();
    let module = module_at(usize::MAX - 0x10, vec![0; 0x20]);
    let operation = pattern_scan_at(&h, &module, Some(0x8), 0x9, 0, ValueKind::U8);
    assert_eq!(operation.finish(), Some(Err(MemoryError::ReadFailure)));
    let operation = pattern_scan_at(&h, &module, Some(0x8), 0x8, 0, ValueKind::U8);
    assert_eq!(
        operation.request(),
        Some(Request::QueryRegion { handle: HANDLE, address: usize::MAX })
    );
}

#[test]
fn a_scan_gives_nothing_where_the_result_is_no_value_of_the_kind() {
    let h = handle();
    let module = module_at(0x1_0000, vec![0; 0x20]);
    let region = || Reply::Region(MemoryRegionInfo { state: MEM_COMMIT, protect: PAGE_READWRITE });
    let scan = |extra: usize, kind: ValueKind| pattern_scan_at(&h, &module, Some(0), 4, extra, kind);

    // The value read lies below the module's base.
    let replies = vec![region(), Reply::Bytes(0xffffu32.to_le_bytes().to_vec())];
    assert_eq!(script(scan(8, ValueKind::U32), replies).1, Ok(Outcome::Absent));
    // Signed, the same difference is a value.
    let replies = vec![region(), Reply::Bytes(0xffffu32.to_le_bytes().to_vec())];
    assert_eq!(script(scan(8, ValueKind::I32), replies).1, Ok(Outcome::Value(Value::I32(7))));
    // The base is no value of the kind.
    let replies = vec![region(), Reply::Bytes(vec![0xff, 0xff])];
    assert_eq!(script(scan(0, ValueKind::U16), replies).1, Ok(Outcome::Absent));
    // The sum leaves the kind.
    let replies = vec![region(), Reply::Bytes(0xffff_ffffu32.to_le_bytes().to_vec())];
    assert_eq!(script(scan(0x1_0001, ValueKind::U32), replies).1, Ok(Outcome::Absent));
    let replies = vec![region(), Reply::Bytes(0xffff_ffffu32.to_le_bytes().to_vec())];
    assert_eq!(
        script(scan(0x1_0000, ValueKind::U32), replies).1,
        Ok(Outcome::Value(Value::U32(0xffff_ffff)))
    );
}

#[test]
fn opening_gives_the_handle() {
    let mut process = FakeProcess::new(0x40_0000, 1, PAGE_READWRITE);
    let opened = process.run(open_process(PROCESS_ALL_ACCESS, PID));
    assert_eq!(opened, Ok(Outcome::Handle(handle())));
    assert_eq!(
        process.requests,
        vec![Request::OpenProcess { desired_access: 0x1f_ffff, process_id: PID }]
    );
}

#[test]
fn opening_fails_without_a_handle() {
    let mut process = FakeProcess::new(0x40_0000, 1, PAGE_READWRITE);
    assert_eq!(
        process.run(open_process(PROCESS_ALL_ACCESS, PID + 1)),
        Err(MemoryError::HandleAcquisitionFailure)
    );
    let (_, result) = script(open_process(1, 2), vec![Reply::Handle(0)]);
    assert_eq!(result, Err(MemoryError::HandleAcquisitionFailure));
    let (_, result) = script(open_process(1, 2), vec![Reply::Closed]);
    assert_eq!(result, Err(MemoryError::HandleAcquisitionFailure));
}

#[test]
fn closing_releases_the_handle() {
    let (requests, result) = script(close_handle(handle()), vec![Reply::Closed]);
    assert_eq!(requests, vec![Request::CloseHandle { handle: HANDLE }]);
    assert_eq!(result, Ok(Outcome::Done));
}

#[test]
fn the_switch_patches_one_byte_and_releases_the_handle() {
    let page = MAYA_PURPLE_OFFSET / PAGE * PAGE;
    let mut process = FakeProcess::new(page, 1, PAGE_EXECUTE_READ);
    process.poke(MAYA_PURPLE_OFFSET, &[0x84]);
    let mut settings = Settings::new(false);

    assert_eq!(process.run(settings.toggle_maya_purple_hack(PID)), Ok(Outcome::Done));
    assert!(settings.maya_purple_hack);
    assert_eq!(process.peek(MAYA_PURPLE_OFFSET, 1), vec![0x85]);
    assert_eq!(
        process.requests,
        vec![
            Request::OpenProcess { desired_access: PROCESS_ALL_ACCESS, process_id: PID },
            Request::SetProtection {
                handle: HANDLE,
                address: 0x00a9_c3a7,
                size: 1,
                protection: PAGE_EXECUTE_READWRITE,
            },
            Request::WriteBytes { handle: HANDLE, address: 0x00a9_c3a7, bytes: vec![0x85] },
            Request::SetProtection {
                handle: HANDLE,
                address: 0x00a9_c3a7,
                size: 1,
                protection: PAGE_EXECUTE_READ,
            },
            Request::CloseHandle { handle: HANDLE },
        ]
    );

    assert_eq!(process.run(settings.toggle_maya_purple_hack(PID)), Ok(Outcome::Done));
    assert!(!settings.maya_purple_hack);
    assert_eq!(process.peek(MAYA_PURPLE_OFFSET, 1), vec![0x84]);
    assert_eq!(process.protection_at(MAYA_PURPLE_OFFSET), PAGE_EXECUTE_READ);
}

#[test]
fn the_switch_releases_the_handle_when_the_patch_fails() {
    let mut settings = Settings::new(true);
    let replies = vec![Reply::Handle(77), Reply::Failed, Reply::Closed];
    let (requests, result) = script(settings.toggle_maya_purple_hack(1), replies);
    assert!(!settings.maya_purple_hack);
    assert_eq!(result, Err(MemoryError::ProtectionChangeFailure));
    assert_eq!(requests.last(), Some(&Request::CloseHandle { handle: 77 }));

    let replies = vec![
        Reply::Handle(77),
        Reply::Protection(PAGE_EXECUTE_READ),
        Reply::Failed,
        Reply::Failed,
        Reply::Failed,
    ];
    let (requests, result) = script(settings.toggle_maya_purple_hack(1), replies);
    assert_eq!(result, Err(MemoryError::WriteFailure));
    assert_eq!(requests.last(), Some(&Request::CloseHandle { handle: 77 }));
    assert_eq!(requests.len(), 5);
}

#[test]
fn the_switch_asks_for_nothing_more_when_the_process_does_not_open() {
    let mut settings = Settings::new(false);
    let (requests, result) = script(settings.toggle_maya_purple_hack(9), vec![Reply::Failed]);
    assert!(settings.maya_purple_hack);
    assert_eq!(result, Err(MemoryError::HandleAcquisitionFailure));
    assert_eq!(
        requests,
        vec![Request::OpenProcess { desired_access: PROCESS_ALL_ACCESS, process_id: 9 }]
    );
}

#[test]
fn an_operation_that_has_finished_stays_as_it_is() {
    let h = handle();
    let operation = Operation::finished(Ok(Outcome::Address(5)));
    let operation = operation.resume(Reply::Bytes(vec![1]));
    assert!(operation.is_finished());
    assert_eq!(operation.finish(), Some(Ok(Outcome::Address(5))));
    let pending = read_u8(&h, 4);
    assert_eq!(pending.finish(), None);
}

#[test]
fn the_plan_of_a_read_decides_its_form() {
    let h = handle();
    let read = |form: Form| Operation::plain_read(&h, 0x100, 2, form);
    let bytes = || vec![Reply::Bytes(vec![0xfe, 0xff])];
    assert_eq!(script(read(Form::Bytes), bytes()).1, Ok(Outcome::Bytes(vec![0xfe, 0xff])));
    assert_eq!(
        script(read(Form::Value(ValueKind::I16)), bytes()).1,
        Ok(Outcome::Value(Value::I16(-2)))
    );
    assert_eq!(
        script(read(Form::Value(ValueKind::U32)), bytes()).1,
        Err(MemoryError::ReadFailure)
    );
    let relative = Form::Relative { kind: ValueKind::U16, base_address: 0xff00, extra: 2 };
    assert_eq!(script(read(relative), bytes()).1, Ok(Outcome::Value(Value::U16(0x100))));
    let guarded = Operation::guarded_read(&h, 0x100, 2, Form::Value(ValueKind::U16));
    assert_eq!(guarded.request(), Some(Request::QueryRegion { handle: HANDLE, address: 0x100 }));
}

#[test]
fn a_running_process_is_found_by_its_name() {
    let mut process = FakeProcess::new(0x40_0000, 1, PAGE_READWRITE);
    process.running = vec![
        ProcessEntry { process_id: 4, exe_file: c_buffer("System", 260) },
        ProcessEntry { process_id: PID, exe_file: c_buffer("game.exe", 260) },
        ProcessEntry { process_id: 9000, exe_file: c_buffer("game.exe", 260) },
    ];
    assert_eq!(process.run(get_process_id("game.exe")), Ok(Outcome::ProcessId(PID)));
    assert_eq!(process.run(get_process_id("System")), Ok(Outcome::ProcessId(4)));
    assert_eq!(process.requests, vec![Request::ListProcesses, Request::ListProcesses]);
}

#[test]
fn a_process_that_does_not_run_is_an_error() {
    let mut process = FakeProcess::new(0x40_0000, 1, PAGE_READWRITE);
    process.running = vec![ProcessEntry { process_id: PID, exe_file: c_buffer("game.exe", 260) }];
    assert_eq!(process.run(get_process_id("Game.exe")), Err(MemoryError::ProcessNotFound));
    assert_eq!(process.run(get_process_id("game")), Err(MemoryError::ProcessNotFound));
    assert_eq!(process.run(get_process_id("")), Err(MemoryError::ProcessNotFound));
    let (_, result) = script(get_process_id("game.exe"), vec![Reply::Failed]);
    assert_eq!(result, Err(MemoryError::ProcessNotFound));
    let (_, result) = script(get_process_id("game.exe"), vec![Reply::Processes(Vec::new())]);
    assert_eq!(result, Err(MemoryError::ProcessNotFound));
}

#[test]
fn a_loaded_module_is_found_by_its_name() {
    let mut process = FakeProcess::new(0x40_0000, 1, PAGE_READWRITE);
    process.listed = vec![
        ModuleEntry { name: c_buffer("game.exe", 256), base_address: 0x40_0000 },
        ModuleEntry { name: c_buffer("ntdll.dll", 256), base_address: 0x7ffe_0000 },
    ];
    assert_eq!(
        process.run(get_module_base(PID, "ntdll.dll")),
        Ok(Outcome::Address(0x7ffe_0000))
    );
    assert_eq!(process.requests, vec![Request::ListModules { process_id: PID }]);
    assert_eq!(
        process.run(get_module_base(PID, "kernel32.dll")),
        Err(MemoryError::ModuleNotFound)
    );
    assert_eq!(
        process.run(get_module_base(PID + 1, "ntdll.dll")),
        Err(MemoryError::ModuleNotFound)
    );
}

#[test]
fn a_snapshot_copies_the_image_of_the_module() {
    let h = handle();
    let base = 0x40_0000;
    let mut process = FakeProcess::new(base, 2, PAGE_EXECUTE_READ);
    let image: Vec<u8> = (0..PAGE + 16).map(|i| (i % 251) as u8).collect();
    process.poke(base, &image);
    process.modules = vec![(
        0x40_0000,
        ModuleInformation {
            name: c_buffer("game.exe", 260),
            base_address: base,
            size: image.len() as u32,
        },
    )];
    let snapshot = process.run(from_handle(&h, 0x40_0000));
    assert_eq!(
        snapshot,
        Ok(Outcome::Module(Module {
            name: String::from("game.exe"),
            handle: 0x40_0000,
            size: image.len() as u32,
            base_address: base,
            data: image.clone(),
        }))
    );
    assert_eq!(
        process.requests,
        vec![
            Request::QueryModule { handle: HANDLE, module: 0x40_0000 },
            Request::ReadBytes { handle: HANDLE, address: base, size: image.len() },
        ]
    );
}

#[test]
fn a_snapshot_fails_where_the_module_or_its_image_cannot_be_had() {
    let h = handle();
    let information = || ModuleInformation {
        name: c_buffer("game.exe", 260),
        base_address: 0x40_0000,
        size: 4,
    };
    let (requests, result) = script(from_handle(&h, 7), vec![Reply::Failed]);
    assert_eq!(result, Err(MemoryError::ModuleNotFound));
    assert_eq!(requests.len(), 1);
    let replies = vec![Reply::Module(information()), Reply::Failed];
    assert_eq!(script(from_handle(&h, 7), replies).1, Err(MemoryError::ReadFailure));
    let replies = vec![Reply::Module(information()), Reply::Bytes(vec![1, 2, 3])];
    assert_eq!(script(from_handle(&h, 7), replies).1, Err(MemoryError::ReadFailure));
    let unnamed = ModuleInformation { name: vec![0xff, 0], base_address: 0x40_0000, size: 1 };
    let replies = vec![Reply::Module(unnamed), Reply::Bytes(vec![1])];
    assert_eq!(script(from_handle(&h, 7), replies).1, Err(MemoryError::ModuleNotFound));
}

/// Drives an operation with the same reply again and again and counts the
/// requests that it makes.
fn count_requests(operation: Operation, reply: &Reply) -> usize {
    let mut operation = operation;
    let mut requests = 0;
    while operation.request().is_some() {
        operation = operation.resume(reply.clone());
        requests += 1;
        assert!(requests <= 64, "the operation does not end");
    }
    assert!(operation.is_finished());
    requests
}

#[test]
fn every_operation_ends_whatever_the_replies_are() {
    let h = handle();
    let replies = [
        Reply::Failed,
        Reply::Handle(0),
        Reply::Handle(9),
        Reply::Closed,
        Reply::Region(MemoryRegionInfo { state: MEM_COMMIT, protect: PAGE_NOACCESS }),
        Reply::Region(MemoryRegionInfo { state: MEM_COMMIT, protect: PAGE_READWRITE }),
        Reply::Protection(PAGE_READWRITE),
        Reply::Bytes(vec![0; 4]),
        Reply::Bytes(vec![0; 8]),
        Reply::Written,
        Reply::Bitness(true),
        Reply::Bitness(false),
        Reply::Processes(Vec::new()),
        Reply::Modules(Vec::new()),
    ];
    for reply in &replies {
        assert!(count_requests(read(&h, 0x1000, 4), reply) <= 4);
        assert!(count_requests(read_bytes(&h, 0x1000, 4), reply) <= 1);
        assert!(count_requests(read_u64(&h, 0x1000), reply) <= 1);
        assert!(count_requests(write_bytes(&h, 0x1000, vec![1]), reply) <= 1);
        assert!(count_requests(patch_ex(&h, 0x1000, vec![1]), reply) <= 3);
        assert!(count_requests(nop_ex(&h, 0x1000, 3), reply) <= 3);
        assert!(count_requests(resolve_multi_level_pointer(&h, 0x1000, vec![1, 2, 3]), reply) <= 4);
        assert!(count_requests(from_handle(&h, 0x40_0000), reply) <= 2);
        assert!(count_requests(open_process(PROCESS_ALL_ACCESS, PID), reply) <= 1);
        assert!(count_requests(close_handle(handle()), reply) <= 1);
        assert!(count_requests(get_process_id("game.exe"), reply) <= 1);
        assert!(count_requests(get_module_base(PID, "game.exe"), reply) <= 1);
        assert!(count_requests(Settings::new(false).toggle_maya_purple_hack(PID), reply) <= 5);
    }
    let pointers = Reply::Bytes(vec![0; 8]);
    let chain = resolve_multi_level_pointer(&h, 0x1000, vec![1, 2, 3]);
    assert_eq!(count_requests(chain, &Reply::Bitness(false)), 2);
    let mut operation = resolve_multi_level_pointer(&h, 0x1000, vec![1, 2, 3]);
    operation = operation.resume(Reply::Bitness(false));
    assert_eq!(count_requests(operation, &pointers), 3);
}

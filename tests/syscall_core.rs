use shadow_syscall::descriptor::{DescriptorTable, File, LegacyFile, NativeFile, MAX_DESCRIPTORS};
use shadow_syscall::errno::{
    from_register, to_register, Errno, SyscallError, EBADF, EFAULT, EINVAL, EMFILE,
};
use shadow_syscall::handler::{
    complete, complete_legacy, HandlerStep, LegacyReturn, LegacySyscall, Process, SysCallArgs,
    SyscallContext, SyscallHandler, SYS_BRK, SYS_FSTAT, SYS_MMAP, SYS_OPEN, SYS_STATX,
};
use shadow_syscall::memory::{Access, ForeignPtr, GuestValue, MappedRegion, ProcessMemory};
use shadow_syscall::stat::Stat;

fn legacy(handle: u64) -> File {
    File::Legacy(LegacyFile { handle })
}

fn native(id: u64, size: i64, mode: u32) -> File {
    File::Native(NativeFile { id, metadata: Stat::with_size_and_mode(size, mode) })
}

fn region(start: u64, len: usize, readable: bool, writable: bool) -> MappedRegion {
    MappedRegion { start, data: vec![0xAAu8; len], readable, writable }
}

fn failed(code: u16) -> HandlerStep {
    HandlerStep::Done(Err(SyscallError::Failed(Errno { code })))
}

/// A process with descriptors 0..=2 legacy, 3 native (size 42, mode 0644),
/// and one writable page at 0x1000.
fn scenario_context() -> SyscallContext {
    let mut process = Process::new();
    for h in 0..3u64 {
        process.descriptors.insert(legacy(h)).unwrap();
    }
    assert_eq!(process.descriptors.insert(native(77, 42, 0o644)), Ok(3));
    process.memory.map_region(region(0x1000, 4096, true, true)).unwrap();
    SyscallContext { host_id: 1, thread_id: 100, process }
}

fn fstat_args(fd: u64, buf: u64) -> SysCallArgs {
    SysCallArgs { number: SYS_FSTAT, args: [fd, buf, 0, 0, 0, 0] }
}

#[test]
fn resolving_absent_descriptor_is_bad_descriptor() {
    let mut t = DescriptorTable::new();
    assert_eq!(t.get(0), Err(Errno { code: EBADF }));
    assert_eq!(t.get(u32::MAX), Err(Errno { code: EBADF }));
    t.insert(legacy(1)).unwrap();
    t.insert(legacy(2)).unwrap();
    t.remove(0).unwrap();
    assert_eq!(t.get(0), Err(Errno { code: EBADF }));
    assert_eq!(t.get(2), Err(Errno { code: EBADF }));
    assert_eq!(t.get(1), Ok(legacy(2)));
}

#[test]
fn allocation_takes_lowest_free_descriptor() {
    let mut t = DescriptorTable::new();
    assert_eq!(t.insert(legacy(10)), Ok(0));
    assert_eq!(t.insert(legacy(11)), Ok(1));
    assert_eq!(t.insert(legacy(12)), Ok(2));
    assert_eq!(t.insert(legacy(13)), Ok(3));
    t.remove(1).unwrap();
    t.remove(2).unwrap();
    assert_eq!(t.insert(legacy(14)), Ok(1));
    assert_eq!(t.insert(legacy(15)), Ok(2));
    assert_eq!(t.insert(legacy(16)), Ok(4));
    assert_eq!(t.get(1), Ok(legacy(14)));
}

#[test]
fn table_full_gives_emfile() {
    let mut t = DescriptorTable::with_limit(4);
    for i in 0..4u32 {
        assert_eq!(t.insert(legacy(i as u64)), Ok(i));
    }
    assert_eq!(t.insert(legacy(0)), Err(Errno { code: EMFILE }));
    assert_eq!(t.duplicate(0), Err(Errno { code: EMFILE }));
    t.remove(2).unwrap();
    assert_eq!(t.duplicate(3), Ok(2));
    assert_eq!(t.get(2), Ok(legacy(3)));
    let mut big = DescriptorTable::with_limit(usize::MAX);
    assert_eq!(big.insert(legacy(1)), Ok(0));
    assert_eq!(DescriptorTable::new().get(0), Err(Errno { code: EBADF }));
    assert_eq!(MAX_DESCRIPTORS, 1048576);
}

#[test]
fn native_file_released_after_last_descriptor() {
    let mut t = DescriptorTable::new();
    let f = native(9, 1, 0o600);
    let fd = t.insert(f).unwrap();
    let removed = t.remove(fd).unwrap();
    assert_eq!(removed.file, f);
    assert!(removed.released);
    assert_eq!(t.count_refs(9), 0);
}

#[test]
fn duplicate_keeps_native_object_alive() {
    let mut t = DescriptorTable::new();
    let f = native(5, 1, 0o600);
    let fd = t.insert(f).unwrap();
    let dup = t.duplicate(fd).unwrap();
    assert_eq!(dup, 1);
    assert_eq!(t.get(dup), Ok(f));
    assert_eq!(t.count_refs(5), 2);
    let first = t.remove(fd).unwrap();
    assert!(!first.released);
    let second = t.remove(dup).unwrap();
    assert!(second.released);
    assert_eq!(t.remove(dup), Err(Errno { code: EBADF }));
    assert_eq!(t.duplicate(dup), Err(Errno { code: EBADF }));
}

#[test]
fn legacy_removal_never_releases() {
    let mut t = DescriptorTable::new();
    t.insert(legacy(3)).unwrap();
    let r = t.remove(0).unwrap();
    assert_eq!(r.file, legacy(3));
    assert!(!r.released);
}

#[test]
fn write_outside_mapping_faults_and_changes_nothing() {
    let mut m = ProcessMemory::new();
    m.map_region(region(0x1000, 16, true, true)).unwrap();
    let before = m.read_bytes(0x1000, 16).unwrap();
    assert_eq!(m.write_bytes(0x0ff8, &[1u8; 16]), Err(Errno { code: EFAULT }));
    assert_eq!(m.write_bytes(0x1008, &[1u8; 9]), Err(Errno { code: EFAULT }));
    assert_eq!(m.write_bytes(u64::MAX, &[1u8; 2]), Err(Errno { code: EFAULT }));
    assert_eq!(m.read_bytes(0x1000, 16).unwrap(), before);
    assert_eq!(m.write_bytes(0x1008, &[1u8, 2, 3]), Ok(()));
    let after = m.read_bytes(0x1006, 6).unwrap();
    assert_eq!(after, vec![0xAA, 0xAA, 1, 2, 3, 0xAA]);
}

#[test]
fn write_to_read_only_mapping_faults() {
    let mut m = ProcessMemory::new();
    m.map_region(region(0x2000, 8, true, false)).unwrap();
    assert_eq!(m.write_bytes(0x2000, &[7u8]), Err(Errno { code: EFAULT }));
    assert_eq!(m.read_bytes(0x2000, 8).unwrap(), vec![0xAAu8; 8]);
    assert!(m.is_accessible(0x2000, 8, Access::Read));
    assert!(!m.is_accessible(0x2000, 8, Access::Write));
}

#[test]
fn access_across_adjacent_mappings() {
    let mut m = ProcessMemory::new();
    m.map_region(region(0x1000, 8, true, true)).unwrap();
    m.map_region(region(0x1008, 8, true, true)).unwrap();
    m.map_region(region(0x1010, 8, true, false)).unwrap();
    assert_eq!(m.write_bytes(0x1004, &[1u8, 2, 3, 4, 5, 6, 7, 8]), Ok(()));
    assert_eq!(m.read_bytes(0x1003, 10).unwrap(), vec![0xAA, 1, 2, 3, 4, 5, 6, 7, 8, 0xAA]);
    assert_eq!(m.write_bytes(0x100c, &[9u8; 8]), Err(Errno { code: EFAULT }));
    assert_eq!(m.read_bytes(0x1008, 8).unwrap(), vec![5, 6, 7, 8, 0xAA, 0xAA, 0xAA, 0xAA]);
    assert_eq!(m.read_bytes(0x1000, 0x19), Err(Errno { code: EFAULT }));
}

#[test]
fn overlapping_mapping_is_refused() {
    let mut m = ProcessMemory::new();
    m.map_region(region(0x1000, 16, true, true)).unwrap();
    assert_eq!(m.map_region(region(0x100f, 4, true, true)), Err(Errno { code: EINVAL }));
    assert_eq!(m.map_region(region(u64::MAX - 2, 4, true, true)), Err(Errno { code: EINVAL }));
    assert_eq!(m.map_region(region(0x1010, 4, true, true)), Ok(()));
}

#[test]
fn typed_access_checks_alignment() {
    let mut m = ProcessMemory::new();
    m.map_region(region(0x1000, 32, true, true)).unwrap();
    let p: ForeignPtr<u64> = ForeignPtr::new(0x1008);
    assert_eq!(m.write(p, &0x0102_0304_0506_0708u64), Ok(()));
    assert_eq!(m.read(ForeignPtr::<u64>::new(0x1008)), Ok(0x0102_0304_0506_0708u64));
    assert_eq!(m.read_bytes(0x1008, 2).unwrap(), vec![0x08, 0x07]);
    assert_eq!(m.read(ForeignPtr::<u32>::new(0x100c)), Ok(0x0102_0304u32));
    assert_eq!(m.write(ForeignPtr::<u64>::new(0x1004), &1u64), Err(Errno { code: EFAULT }));
    assert_eq!(m.read(ForeignPtr::<u32>::new(0x1002)), Err(Errno { code: EFAULT }));
    assert_eq!(m.read(ForeignPtr::<u64>::new(0x1020)), Err(Errno { code: EFAULT }));
}

#[test]
fn stat_record_layout_and_round_trip() {
    let mut s = Stat::with_size_and_mode(-2, 0o100755);
    s.dev = 1;
    s.ino = 0x1122;
    s.ctime_nsec = 999;
    let b = s.to_bytes();
    assert_eq!(b.len(), 144);
    assert_eq!(&b[0..8], &[1, 0, 0, 0, 0, 0, 0, 0]);
    assert_eq!(&b[8..10], &[0x22, 0x11]);
    assert_eq!(&b[24..28], &[0xed, 0x81, 0, 0]);
    assert_eq!(&b[48..56], &[0xfe, 0xff, 0xff, 0xff, 0xff, 0xff, 0xff, 0xff]);
    assert_eq!(Stat::from_bytes(&b), s);
    assert_eq!(Stat::size(), 144);
    assert_eq!(Stat::align(), 8);
}

#[test]
fn fstat_native_scenario() {
    let mut ctx = scenario_context();
    let step = SyscallHandler::dispatch(&mut ctx, &fstat_args(3, 0x1100));
    assert_eq!(step, Some(HandlerStep::Done(Ok(0))));
    let buf = ctx.process.memory.read_bytes(0x1100, 144).unwrap();
    let st = Stat::from_bytes(&buf);
    assert_eq!(st.size, 42);
    assert_eq!(st.mode, 0o644);
    assert_eq!(buf, Stat::with_size_and_mode(42, 0o644).to_bytes());
    assert_eq!(to_register(Ok(0)), Some(0));
}

#[test]
fn fstat_bad_descriptor_writes_nothing() {
    let mut ctx = scenario_context();
    let before = ctx.process.memory.read_bytes(0x1000, 4096).unwrap();
    let step = SyscallHandler::dispatch(&mut ctx, &fstat_args(99, 0x1100));
    assert_eq!(step, Some(failed(EBADF)));
    assert_eq!(ctx.process.memory.read_bytes(0x1000, 4096).unwrap(), before);
    assert_eq!(
        to_register(Err(SyscallError::Failed(Errno { code: EBADF }))),
        Some((-9i64) as u64)
    );
}

#[test]
fn fstat_native_bad_buffer_faults() {
    let mut ctx = scenario_context();
    let before = ctx.process.memory.read_bytes(0x1000, 4096).unwrap();
    let ptr: ForeignPtr<Stat> = ForeignPtr::new(0x1000 + 4096 - 64);
    assert_eq!(SyscallHandler::fstat(&mut ctx, 3, ptr), failed(EFAULT));
    assert_eq!(SyscallHandler::fstat(&mut ctx, 3, ForeignPtr::new(0x1004)), failed(EFAULT));
    assert_eq!(ctx.process.memory.read_bytes(0x1000, 4096).unwrap(), before);
}

#[test]
fn fstat_legacy_file_is_delegated() {
    let mut ctx = scenario_context();
    let before = ctx.process.memory.read_bytes(0x1000, 4096).unwrap();
    let step = SyscallHandler::fstat(&mut ctx, 1, ForeignPtr::new(0x1100));
    assert_eq!(step, HandlerStep::Delegate(LegacySyscall::Fstat));
    assert_eq!(ctx.process.memory.read_bytes(0x1000, 4096).unwrap(), before);
    assert_eq!(complete(step, LegacyReturn::Done(0)), Ok(0));
    assert_eq!(complete(step, LegacyReturn::Done(0)), complete_legacy(LegacyReturn::Done(0)));
}

#[test]
fn mmap_error_passes_through_unchanged() {
    let mut ctx = scenario_context();
    let args = SysCallArgs { number: SYS_MMAP, args: [0, 4096, 3, 0xffff, u64::MAX, 0] };
    let step = SyscallHandler::dispatch(&mut ctx, &args).unwrap();
    assert_eq!(step, HandlerStep::Delegate(LegacySyscall::Mmap));
    let legacy_reg = (-22i64) as u64;
    let r = complete(step, LegacyReturn::Done(legacy_reg));
    assert_eq!(r, Err(SyscallError::Failed(Errno { code: EINVAL })));
    assert_eq!(to_register(r), Some(legacy_reg));
}

#[test]
fn mmap_address_is_success_value() {
    let addr = 0xffff_f000_0000_0000u64;
    assert_eq!(complete_legacy(LegacyReturn::Done(addr)), Ok(addr));
    assert_eq!(from_register((-4095i64) as u64), Err(SyscallError::Failed(Errno { code: 4095 })));
    assert_eq!(from_register((-4096i64) as u64), Ok((-4096i64) as u64));
}

#[test]
fn blocked_call_resumes_with_same_result() {
    let mut ctx = scenario_context();
    let args = SysCallArgs { number: SYS_BRK, args: [0; 6] };
    let first = SyscallHandler::dispatch(&mut ctx, &args).unwrap();
    assert_eq!(complete(first, LegacyReturn::Block), Err(SyscallError::Blocked));
    assert_eq!(to_register(Err(SyscallError::Blocked)), None);
    let again = SyscallHandler::dispatch(&mut ctx, &args).unwrap();
    assert_eq!(again, first);
    let mut fresh = scenario_context();
    let direct = SyscallHandler::dispatch(&mut fresh, &args).unwrap();
    assert_eq!(complete(again, LegacyReturn::Done(0x5000)), complete(direct, LegacyReturn::Done(0x5000)));
}

#[test]
fn unknown_syscall_has_no_handler() {
    let mut ctx = scenario_context();
    let args = SysCallArgs { number: 9999, args: [0; 6] };
    assert_eq!(SyscallHandler::dispatch(&mut ctx, &args), None);
}

#[test]
fn legacy_family_routes() {
    let ctx = scenario_context();
    let args = SysCallArgs { number: SYS_OPEN, args: [0; 6] };
    assert_eq!(SyscallHandler::open(&ctx, &args), HandlerStep::Delegate(LegacySyscall::Open));
    assert_eq!(SyscallHandler::openat(&ctx, &args), HandlerStep::Delegate(LegacySyscall::Openat));
    assert_eq!(SyscallHandler::brk(&ctx, &args), HandlerStep::Delegate(LegacySyscall::Brk));
    assert_eq!(SyscallHandler::mmap(&ctx, &args), HandlerStep::Delegate(LegacySyscall::Mmap));
    assert_eq!(SyscallHandler::mremap(&ctx, &args), HandlerStep::Delegate(LegacySyscall::Mremap));
    assert_eq!(SyscallHandler::munmap(&ctx, &args), HandlerStep::Delegate(LegacySyscall::Munmap));
    assert_eq!(SyscallHandler::mprotect(&ctx, &args), HandlerStep::Delegate(LegacySyscall::Mprotect));
    assert_eq!(SyscallHandler::statx(&ctx), HandlerStep::Delegate(LegacySyscall::Statx));
    assert_eq!(SyscallHandler::fstatfs(&ctx), HandlerStep::Delegate(LegacySyscall::Fstatfs));
    assert_eq!(SyscallHandler::newfstatat(&ctx), HandlerStep::Delegate(LegacySyscall::Newfstatat));
    let mut c = scenario_context();
    let statx = SysCallArgs { number: SYS_STATX, args: [0; 6] };
    assert_eq!(SyscallHandler::dispatch(&mut c, &statx), Some(HandlerStep::Delegate(LegacySyscall::Statx)));
}

#[test]
fn register_round_trip() {
    for code in [1u16, 9, 14, 22, 4095] {
        let r = Err(SyscallError::Failed(Errno { code }));
        let reg = to_register(r).unwrap();
        assert_eq!(reg, 0u64.wrapping_sub(code as u64));
        assert_eq!(from_register(reg), r);
    }
    assert_eq!(from_register(7), Ok(7));
}

//! The dispatch core: syscall numbers routed to native handlers or delegated
//! to the legacy implementation, and the sampled handlers themselves.

use vstd::prelude::*;
use crate::descriptor::{DescriptorTable, File, is_open};
use crate::errno::{Errno, SyscallError, SyscallResult, EBADF, EFAULT, from_register, spec_from_register};
use crate::memory::{
    Access, ForeignPtr, GuestValue, ProcessMemory, bytes_at, range_accessible, region_written,
};
use crate::stat::{Stat, STAT_SIZE};

verus! {

pub const SYS_OPEN: u64 = 2;
pub const SYS_FSTAT: u64 = 5;
pub const SYS_MMAP: u64 = 9;
pub const SYS_MPROTECT: u64 = 10;
pub const SYS_MUNMAP: u64 = 11;
pub const SYS_BRK: u64 = 12;
pub const SYS_MREMAP: u64 = 25;
pub const SYS_FSTATFS: u64 = 138;
pub const SYS_OPENAT: u64 = 257;
pub const SYS_NEWFSTATAT: u64 = 262;
pub const SYS_STATX: u64 = 332;

/// A raw syscall request: the number and six register-width argument words.
#[derive(Clone, Copy, Debug, PartialEq, Eq)]
pub struct SysCallArgs {
    pub number: u64,
    pub args: [u64; 6],
}

/// The simulated state of one guest process that handlers work on.
pub struct Process {
    pub descriptors: DescriptorTable,
    pub memory: ProcessMemory,
}

impl Process {
    pub open spec fn wf(&self) -> bool {
        self.descriptors.wf() && self.memory.wf()
    }

    /// A process with no descriptor open and nothing mapped.
    pub fn new() -> (r: Process)
        ensures
            r.wf(),
            r.descriptors@ == Seq::<Option<File>>::empty(),
            r.memory@ == Seq::<crate::memory::MappedRegion>::empty(),
    {
        Process { descriptors: DescriptorTable::new(), memory: ProcessMemory::new() }
    }
}

/// Everything one syscall invocation works on: the calling thread, its
/// process and the simulated host.
pub struct SyscallContext {
    pub host_id: u32,
    pub thread_id: u32,
    pub process: Process,
}

impl SyscallContext {
    pub open spec fn wf(&self) -> bool {
        self.process.wf()
    }
}

/// Entry points of the legacy implementation.
#[derive(Clone, Copy, Debug, PartialEq, Eq, Structural)]
pub enum LegacySyscall {
    Open,
    Openat,
    Brk,
    Mmap,
    Mremap,
    Munmap,
    Mprotect,
    Statx,
    Fstat,
    Fstatfs,
    Newfstatat,
}

/// What a handler hands back: a finished result, or the legacy entry point
/// that the whole, untouched call is to be forwarded to.
#[derive(Clone, Copy, Debug, PartialEq, Eq)]
pub enum HandlerStep {
    Done(SyscallResult),
    Delegate(LegacySyscall),
}

/// What the legacy implementation returned: a register value in the
/// platform's return convention, or a request to block.
#[derive(Clone, Copy, Debug, PartialEq, Eq, Structural)]
pub enum LegacyReturn {
    Done(u64),
    Block,
}

/// Namespace of the syscall handlers.
pub struct SyscallHandler {}

/// The legacy entry point that serves syscall `nr` outright.
pub open spec fn legacy_route(nr: u64) -> Option<LegacySyscall> {
    if nr == SYS_OPEN {
        Some(LegacySyscall::Open)
    } else if nr == SYS_OPENAT {
        Some(LegacySyscall::Openat)
    } else if nr == SYS_BRK {
        Some(LegacySyscall::Brk)
    } else if nr == SYS_MMAP {
        Some(LegacySyscall::Mmap)
    } else if nr == SYS_MREMAP {
        Some(LegacySyscall::Mremap)
    } else if nr == SYS_MUNMAP {
        Some(LegacySyscall::Munmap)
    } else if nr == SYS_MPROTECT {
        Some(LegacySyscall::Mprotect)
    } else if nr == SYS_STATX {
        Some(LegacySyscall::Statx)
    } else if nr == SYS_FSTATFS {
        Some(LegacySyscall::Fstatfs)
    } else if nr == SYS_NEWFSTATAT {
        Some(LegacySyscall::Newfstatat)
    } else {
        None
    }
}

/// Syscall `nr` has a handler.
pub open spec fn is_supported(nr: u64) -> bool {
    nr == SYS_FSTAT || legacy_route(nr) is Some
}

/// The process state that handlers can observe is the same in both contexts.
pub open spec fn same_state(a: SyscallContext, b: SyscallContext) -> bool {
    &&& a.process.descriptors@ == b.process.descriptors@
    &&& a.process.memory@ == b.process.memory@
}

/// What `fstat(fd, addr)` decides in context `c`: `EBADF` for a descriptor
/// that is not open, delegation for a legacy file, and for a native file
/// success when the record can be written to `addr`, else `EFAULT`.
pub open spec fn fstat_step(c: SyscallContext, fd: u32, addr: u64) -> HandlerStep {
    let d = c.process.descriptors@;
    if !is_open(d, fd as int) {
        HandlerStep::Done(Err(SyscallError::Failed(Errno { code: EBADF })))
    } else {
        match d[fd as int] {
            Some(File::Native(_)) => if addr as int % 8 == 0 && range_accessible(
                c.process.memory@,
                addr as int,
                STAT_SIZE as int,
                Access::Write,
            ) {
                HandlerStep::Done(Ok(0))
            } else {
                HandlerStep::Done(Err(SyscallError::Failed(Errno { code: EFAULT })))
            },
            _ => HandlerStep::Delegate(LegacySyscall::Fstat),
        }
    }
}

/// The effect of `fstat(fd, addr)` from context `o` to context `n`: the
/// descriptors never change; guest memory changes only on success, where the
/// native file's metadata record is written at `addr` and nothing else.
pub open spec fn fstat_effect(o: SyscallContext, n: SyscallContext, fd: u32, addr: u64) -> bool {
    &&& n.process.descriptors@ == o.process.descriptors@
    &&& match (fstat_step(o, fd, addr), o.process.descriptors@[fd as int]) {
        (HandlerStep::Done(Ok(_)), Some(File::Native(f))) => {
            &&& n.process.memory@.len() == o.process.memory@.len()
            &&& forall|i: int|
                0 <= i < o.process.memory@.len() ==> region_written(
                    #[trigger] o.process.memory@[i],
                    n.process.memory@[i],
                    addr as int,
                    f.metadata.spec_to_bytes(),
                )
            &&& bytes_at(n.process.memory@, addr as int, STAT_SIZE as nat)
                == f.metadata.spec_to_bytes()
        },
        _ => n.process.memory@ == o.process.memory@,
    }
}

/// What dispatching `args` from context `o` does, ending in context `n` with
/// step `r`: unknown numbers get `None` and touch nothing; `fstat` behaves as
/// [`fstat_step`] and [`fstat_effect`] say; every other supported number is
/// delegated to its legacy entry point with the state untouched.
pub open spec fn dispatch_post(
    o: SyscallContext,
    n: SyscallContext,
    args: SysCallArgs,
    r: Option<HandlerStep>,
) -> bool {
    if args.number == SYS_FSTAT {
        let fd = args.args[0] as u32;
        let addr = args.args[1];
        r == Some(fstat_step(o, fd, addr)) && fstat_effect(o, n, fd, addr)
    } else {
        &&& r == match legacy_route(args.number) {
            Some(l) => Some(HandlerStep::Delegate(l)),
            None => None::<HandlerStep>,
        }
        &&& same_state(o, n)
    }
}

/// The result of a call that was handled with `step`, where `legacy` is what
/// the legacy implementation returned if the step delegated.
pub open spec fn completed(step: HandlerStep, legacy: LegacyReturn) -> SyscallResult {
    match step {
        HandlerStep::Done(r) => r,
        HandlerStep::Delegate(_) => match legacy {
            LegacyReturn::Done(reg) => spec_from_register(reg),
            LegacyReturn::Block => Err(SyscallError::Blocked),
        },
    }
}

/// Adapts what the legacy implementation returned into a result, passing its
/// error codes through unchanged.
pub fn complete_legacy(ret: LegacyReturn) -> (r: SyscallResult)
    ensures
        r == (match ret {
            LegacyReturn::Done(reg) => spec_from_register(reg),
            LegacyReturn::Block => Err::<u64, SyscallError>(SyscallError::Blocked),
        }),
        r matches Err(SyscallError::Failed(e)) ==> e.is_valid(),
{
    match ret {
        LegacyReturn::Done(reg) => from_register(reg),
        LegacyReturn::Block => Err(SyscallError::Blocked),
    }
}

/// The final result of a call that was handled with `step`.
pub fn complete(step: HandlerStep, legacy: LegacyReturn) -> (r: SyscallResult)
    ensures
        r == completed(step, legacy),
{
    match step {
        HandlerStep::Done(r) => r,
        HandlerStep::Delegate(_) => complete_legacy(legacy),
    }
}

impl SyscallHandler {
    pub fn open(_ctx: &SyscallContext, _args: &SysCallArgs) -> (r: HandlerStep)
        ensures
            r == HandlerStep::Delegate(LegacySyscall::Open),
    {
        HandlerStep::Delegate(LegacySyscall::Open)
    }

    pub fn openat(_ctx: &SyscallContext, _args: &SysCallArgs) -> (r: HandlerStep)
        ensures
            r == HandlerStep::Delegate(LegacySyscall::Openat),
    {
        HandlerStep::Delegate(LegacySyscall::Openat)
    }

    pub fn brk(_ctx: &SyscallContext, _args: &SysCallArgs) -> (r: HandlerStep)
        ensures
            r == HandlerStep::Delegate(LegacySyscall::Brk),
    {
        HandlerStep::Delegate(LegacySyscall::Brk)
    }

    pub fn mmap(_ctx: &SyscallContext, _args: &SysCallArgs) -> (r: HandlerStep)
        ensures
            r == HandlerStep::Delegate(LegacySyscall::Mmap),
    {
        HandlerStep::Delegate(LegacySyscall::Mmap)
    }

    pub fn mremap(_ctx: &SyscallContext, _args: &SysCallArgs) -> (r: HandlerStep)
        ensures
            r == HandlerStep::Delegate(LegacySyscall::Mremap),
    {
        HandlerStep::Delegate(LegacySyscall::Mremap)
    }

    pub fn munmap(_ctx: &SyscallContext, _args: &SysCallArgs) -> (r: HandlerStep)
        ensures
            r == HandlerStep::Delegate(LegacySyscall::Munmap),
    {
        HandlerStep::Delegate(LegacySyscall::Munmap)
    }

    pub fn mprotect(_ctx: &SyscallContext, _args: &SysCallArgs) -> (r: HandlerStep)
        ensures
            r == HandlerStep::Delegate(LegacySyscall::Mprotect),
    {
        HandlerStep::Delegate(LegacySyscall::Mprotect)
    }

    pub fn statx(_ctx: &SyscallContext) -> (r: HandlerStep)
        ensures
            r == HandlerStep::Delegate(LegacySyscall::Statx),
    {
        HandlerStep::Delegate(LegacySyscall::Statx)
    }

    pub fn fstatfs(_ctx: &SyscallContext) -> (r: HandlerStep)
        ensures
            r == HandlerStep::Delegate(LegacySyscall::Fstatfs),
    {
        HandlerStep::Delegate(LegacySyscall::Fstatfs)
    }

    pub fn newfstatat(_ctx: &SyscallContext) -> (r: HandlerStep)
        ensures
            r == HandlerStep::Delegate(LegacySyscall::Newfstatat),
    {
        HandlerStep::Delegate(LegacySyscall::Newfstatat)
    }

    /// Resolves `fd`; a legacy file is handed to the legacy implementation
    /// whole, a native file's metadata is written to `statbuf_ptr`.
    pub fn fstat(ctx: &mut SyscallContext, fd: u32, statbuf_ptr: ForeignPtr<Stat>) -> (r: HandlerStep)
        requires
            old(ctx).wf(),
        ensures
            final(ctx).wf(),
            final(ctx).host_id == old(ctx).host_id,
            final(ctx).thread_id == old(ctx).thread_id,
            r == fstat_step(*old(ctx), fd, statbuf_ptr.addr),
            fstat_effect(*old(ctx), *final(ctx), fd, statbuf_ptr.addr),
    {
        let file = match ctx.process.descriptors.get(fd) {
            Ok(f) => f,
            Err(e) => {
                return HandlerStep::Done(Err(SyscallError::Failed(e)));
            },
        };
        let native = match file {
            File::Native(n) => n,
            File::Legacy(_) => {
                return HandlerStep::Delegate(LegacySyscall::Fstat);
            },
        };
        let stat = match native.stat() {
            Ok(s) => s,
            Err(e) => {
                return HandlerStep::Done(Err(SyscallError::Failed(e)));
            },
        };
        match ctx.process.memory.write(statbuf_ptr, &stat) {
            Ok(()) => HandlerStep::Done(Ok(0)),
            Err(e) => HandlerStep::Done(Err(SyscallError::Failed(e))),
        }
    }

    /// Routes a syscall to its handler. `None` for a number without one: the
    /// dispatch table and the interception shim disagree, which is fatal.
    pub fn dispatch(ctx: &mut SyscallContext, args: &SysCallArgs) -> (r: Option<HandlerStep>)
        requires
            old(ctx).wf(),
        ensures
            final(ctx).wf(),
            final(ctx).host_id == old(ctx).host_id,
            final(ctx).thread_id == old(ctx).thread_id,
            r is Some == is_supported(args.number),
            dispatch_post(*old(ctx), *final(ctx), *args, r),
    {
        let nr = args.number;
        if nr == SYS_FSTAT {
            let fd = args.args[0] as u32;
            let ptr: ForeignPtr<Stat> = ForeignPtr::new(args.args[1]);
            Some(Self::fstat(ctx, fd, ptr))
        } else if nr == SYS_OPEN {
            Some(Self::open(ctx, args))
        } else if nr == SYS_OPENAT {
            Some(Self::openat(ctx, args))
        } else if nr == SYS_BRK {
            Some(Self::brk(ctx, args))
        } else if nr == SYS_MMAP {
            Some(Self::mmap(ctx, args))
        } else if nr == SYS_MREMAP {
            Some(Self::mremap(ctx, args))
        } else if nr == SYS_MUNMAP {
            Some(Self::munmap(ctx, args))
        } else if nr == SYS_MPROTECT {
            Some(Self::mprotect(ctx, args))
        } else if nr == SYS_STATX {
            Some(Self::statx(ctx))
        } else if nr == SYS_FSTATFS {
            Some(Self::fstatfs(ctx))
        } else if nr == SYS_NEWFSTATAT {
            Some(Self::newfstatat(ctx))
        } else {
            None
        }
    }
}

/// A call that blocked left the process state untouched, and resuming it
/// once the blocking condition holds, with nothing else changed, takes the
/// same step as a call that never blocked: it completes with the same result.
pub proof fn lemma_resume_after_block(
    c0: SyscallContext,
    c1: SyscallContext,
    resumed: SyscallContext,
    c2: SyscallContext,
    args: SysCallArgs,
    first: HandlerStep,
    again: HandlerStep,
)
    requires
        dispatch_post(c0, c1, args, Some(first)),
        completed(first, LegacyReturn::Block) == Err::<u64, SyscallError>(SyscallError::Blocked),
        same_state(resumed, c1),
        dispatch_post(resumed, c2, args, Some(again)),
    ensures
        same_state(c1, c0),
        again == first,
        forall|legacy: LegacyReturn| completed(again, legacy) == completed(first, legacy),
{
}

/// After a successful `fstat` on a native file, the record read back from
/// the guest's buffer is exactly what the file's stat capability reports.
pub proof fn lemma_fstat_record_decodes(o: SyscallContext, n: SyscallContext, fd: u32, addr: u64)
    requires
        fstat_step(o, fd, addr) == HandlerStep::Done(Ok(0)),
        fstat_effect(o, n, fd, addr),
    ensures
        o.process.descriptors@[fd as int] matches Some(File::Native(f)) && Stat::spec_from_bytes(
            bytes_at(n.process.memory@, addr as int, STAT_SIZE as nat),
        ) == f.metadata,
{
    match o.process.descriptors@[fd as int] {
        Some(File::Native(f)) => {
            Stat::lemma_round_trip(f.metadata);
        },
        _ => {},
    }
}

/// `fstat` on a legacy descriptor touches nothing and completes exactly as
/// the legacy implementation's own `fstat` does, whatever that returns.
pub proof fn lemma_fstat_legacy_is_delegation(
    o: SyscallContext,
    n: SyscallContext,
    fd: u32,
    addr: u64,
    legacy: LegacyReturn,
)
    requires
        o.process.descriptors@[fd as int] matches Some(File::Legacy(_)),
        is_open(o.process.descriptors@, fd as int),
        fstat_effect(o, n, fd, addr),
    ensures
        fstat_step(o, fd, addr) == HandlerStep::Delegate(LegacySyscall::Fstat),
        same_state(o, n),
        completed(fstat_step(o, fd, addr), legacy) == completed(
            HandlerStep::Delegate(LegacySyscall::Fstat),
            legacy,
        ),
{
}

} // verus!

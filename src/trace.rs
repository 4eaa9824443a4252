//! The argument schema of each handled syscall, and the decoding of raw
//! argument words into their semantic types for the trace sink.

use vstd::prelude::*;
use crate::handler::{
    SysCallArgs, SYS_BRK, SYS_FSTAT, SYS_FSTATFS, SYS_MMAP, SYS_MPROTECT, SYS_MREMAP, SYS_MUNMAP,
    SYS_NEWFSTATAT, SYS_OPEN, SYS_OPENAT, SYS_STATX, is_supported,
};

verus! {

/// The semantic type of a syscall argument or return value.
#[derive(Clone, Copy, Debug, PartialEq, Eq, Structural)]
pub enum ArgKind {
    /// A C `int`.
    Int,
    /// A C `unsigned int`.
    UInt,
    /// A `size_t`.
    Size,
    /// An `off_t`.
    Offset,
    /// An untyped guest address.
    Pointer,
    /// The guest address of a NUL-terminated path.
    Path,
    /// The guest address of a `struct stat`.
    StatPtr,
    /// `open` flags.
    OpenFlags,
    /// File mode bits.
    FileMode,
    /// `mmap` / `mprotect` protection flags.
    ProtFlags,
    /// `mmap` flags.
    MapFlags,
    /// `mremap` flags.
    RemapFlags,
}

/// A syscall's return type and the types of its arguments, by position.
pub struct SyscallSchema {
    pub ret: ArgKind,
    pub args: Vec<ArgKind>,
}

/// An argument word decoded into its semantic type.
#[derive(Clone, Copy, Debug, PartialEq, Eq, Structural)]
pub enum TypedArg {
    Int(i32),
    UInt(u32),
    Size(u64),
    Offset(i64),
    Address(u64),
    Path(u64),
    StatPtr(u64),
    /// Flag or mode bits, with the kind they belong to.
    Bits(ArgKind, u32),
}

/// The return type of syscall `nr`.
pub open spec fn spec_ret_kind(nr: u64) -> ArgKind {
    if nr == SYS_MMAP || nr == SYS_MREMAP {
        ArgKind::Pointer
    } else {
        ArgKind::Int
    }
}

/// The argument types of syscall `nr`, by position.
pub open spec fn spec_arg_kinds(nr: u64) -> Seq<ArgKind> {
    if nr == SYS_OPEN {
        seq![ArgKind::Path, ArgKind::OpenFlags, ArgKind::FileMode]
    } else if nr == SYS_OPENAT {
        seq![ArgKind::Int, ArgKind::Path, ArgKind::OpenFlags, ArgKind::FileMode]
    } else if nr == SYS_BRK {
        seq![ArgKind::Pointer]
    } else if nr == SYS_MMAP {
        seq![
            ArgKind::Pointer,
            ArgKind::Size,
            ArgKind::ProtFlags,
            ArgKind::MapFlags,
            ArgKind::Int,
            ArgKind::Offset,
        ]
    } else if nr == SYS_MREMAP {
        seq![
            ArgKind::Pointer,
            ArgKind::Size,
            ArgKind::Size,
            ArgKind::RemapFlags,
            ArgKind::Pointer,
        ]
    } else if nr == SYS_MUNMAP {
        seq![ArgKind::Pointer, ArgKind::Size]
    } else if nr == SYS_MPROTECT {
        seq![ArgKind::Pointer, ArgKind::Size, ArgKind::Int]
    } else if nr == SYS_FSTAT {
        seq![ArgKind::UInt, ArgKind::StatPtr]
    } else {
        Seq::empty()
    }
}

/// What word `w` means as a value of kind `k`; 32-bit kinds take the low
/// half of the register.
pub open spec fn spec_decode(k: ArgKind, w: u64) -> TypedArg {
    match k {
        ArgKind::Int => TypedArg::Int(w as i32),
        ArgKind::UInt => TypedArg::UInt(w as u32),
        ArgKind::Size => TypedArg::Size(w),
        ArgKind::Offset => TypedArg::Offset(w as i64),
        ArgKind::Pointer => TypedArg::Address(w),
        ArgKind::Path => TypedArg::Path(w),
        ArgKind::StatPtr => TypedArg::StatPtr(w),
        _ => TypedArg::Bits(k, w as u32),
    }
}

/// The schema of syscall `nr`; `None` for a number without a handler.
pub fn schema(nr: u64) -> (r: Option<SyscallSchema>)
    ensures
        r is Some == is_supported(nr),
        r matches Some(s) ==> s.ret == spec_ret_kind(nr) && s.args@ == spec_arg_kinds(nr),
{
    let args: Vec<ArgKind> = if nr == SYS_OPEN {
        vec![ArgKind::Path, ArgKind::OpenFlags, ArgKind::FileMode]
    } else if nr == SYS_OPENAT {
        vec![ArgKind::Int, ArgKind::Path, ArgKind::OpenFlags, ArgKind::FileMode]
    } else if nr == SYS_BRK {
        vec![ArgKind::Pointer]
    } else if nr == SYS_MMAP {
        vec![
            ArgKind::Pointer,
            ArgKind::Size,
            ArgKind::ProtFlags,
            ArgKind::MapFlags,
            ArgKind::Int,
            ArgKind::Offset,
        ]
    } else if nr == SYS_MREMAP {
        vec![
            ArgKind::Pointer,
            ArgKind::Size,
            ArgKind::Size,
            ArgKind::RemapFlags,
            ArgKind::Pointer,
        ]
    } else if nr == SYS_MUNMAP {
        vec![ArgKind::Pointer, ArgKind::Size]
    } else if nr == SYS_MPROTECT {
        vec![ArgKind::Pointer, ArgKind::Size, ArgKind::Int]
    } else if nr == SYS_FSTAT {
        vec![ArgKind::UInt, ArgKind::StatPtr]
    } else if nr == SYS_STATX || nr == SYS_FSTATFS || nr == SYS_NEWFSTATAT {
        Vec::new()
    } else {
        return None;
    };
    assert(args@ =~= spec_arg_kinds(nr));
    let ret = if nr == SYS_MMAP || nr == SYS_MREMAP {
        ArgKind::Pointer
    } else {
        ArgKind::Int
    };
    Some(SyscallSchema { ret, args })
}

/// Decodes word `w` as a value of kind `k`.
pub fn decode(k: ArgKind, w: u64) -> (r: TypedArg)
    ensures
        r == spec_decode(k, w),
{
    match k {
        ArgKind::Int => TypedArg::Int(w as i32),
        ArgKind::UInt => TypedArg::UInt(w as u32),
        ArgKind::Size => TypedArg::Size(w),
        ArgKind::Offset => TypedArg::Offset(w as i64),
        ArgKind::Pointer => TypedArg::Address(w),
        ArgKind::Path => TypedArg::Path(w),
        ArgKind::StatPtr => TypedArg::StatPtr(w),
        _ => TypedArg::Bits(k, w as u32),
    }
}

/// The arguments of a request decoded by its syscall's schema, for the
/// trace sink; `None` for a number without a handler.
pub fn decode_args(args: &SysCallArgs) -> (r: Option<Vec<TypedArg>>)
    ensures
        r is Some == is_supported(args.number),
        r matches Some(v) ==> v@.len() == spec_arg_kinds(args.number).len() && forall|i: int|
            0 <= i < v@.len() ==> #[trigger] v@[i] == spec_decode(
                spec_arg_kinds(args.number)[i],
                args.args[i],
            ),
{
    let s = match schema(args.number) {
        Some(s) => s,
        None => {
            return None;
        },
    };
    let mut out: Vec<TypedArg> = Vec::new();
    let mut i: usize = 0;
    while i < s.args.len()
        invariant
            s.args@ == spec_arg_kinds(args.number),
            s.args@.len() <= 6,
            i <= s.args@.len(),
            out@.len() == i,
            forall|j: int|
                0 <= j < i ==> #[trigger] out@[j] == spec_decode(
                    spec_arg_kinds(args.number)[j],
                    args.args[j],
                ),
        decreases s.args@.len() - i,
    {
        out.push(decode(s.args[i], args.args[i]));
        i += 1;
    }
    Some(out)
}

} // verus!

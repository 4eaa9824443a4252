//! Error codes, handler results and the guest's register return convention.

use vstd::prelude::*;

verus! {

/// The largest error code that the guest ABI can carry: a returned register
/// whose signed value lies in `-MAX_ERRNO ..= -1` denotes an error.
pub const MAX_ERRNO: u64 = 4095;

/// A platform error code, always in `1 ..= MAX_ERRNO`.
#[derive(Clone, Copy, Debug, PartialEq, Eq, Structural)]
pub struct Errno {
    pub code: u16,
}

/// Bad file descriptor.
pub const EBADF: u16 = 9;

/// Bad address.
pub const EFAULT: u16 = 14;

/// Invalid argument.
pub const EINVAL: u16 = 22;

/// Too many open files.
pub const EMFILE: u16 = 24;

impl Errno {
    pub open spec fn is_valid(self) -> bool {
        1 <= self.code <= MAX_ERRNO
    }
}

/// Why a handler did not complete.
#[derive(Clone, Copy, Debug, PartialEq, Eq, Structural)]
pub enum SyscallError {
    /// A guest-visible error.
    Failed(Errno),
    /// The calling thread must be parked until the blocking condition holds;
    /// the call is then dispatched again.
    Blocked,
}

/// The outcome of one handler: a register-width success value, an error, or
/// a request to block.
pub type SyscallResult = Result<u64, SyscallError>;

/// Whether a register value returned to the guest denotes an error.
pub open spec fn is_error_register(reg: u64) -> bool {
    reg >= (u64::MAX - MAX_ERRNO + 1) as u64
}

/// The register value for a guest-visible error: the negated code (a code
/// of zero, which names no error, stays zero).
pub open spec fn spec_negated(e: Errno) -> u64 {
    if e.code == 0 {
        0
    } else {
        (u64::MAX as int - e.code as int + 1) as u64
    }
}

/// The register value that the guest sees for a completed result, or `None`
/// for a blocked one.
pub open spec fn spec_to_register(r: SyscallResult) -> Option<u64> {
    match r {
        Ok(v) => Some(v),
        Err(SyscallError::Failed(e)) => Some(spec_negated(e)),
        Err(SyscallError::Blocked) => None,
    }
}

/// The result that a register value in the platform's return convention
/// stands for.
pub open spec fn spec_from_register(reg: u64) -> SyscallResult {
    if is_error_register(reg) {
        Err(SyscallError::Failed(Errno { code: (u64::MAX - reg + 1) as u16 }))
    } else {
        Ok(reg)
    }
}

/// Converts a result into the register value written back to the guest;
/// `None` when the call blocked.
pub fn to_register(r: SyscallResult) -> (reg: Option<u64>)
    ensures
        reg == spec_to_register(r),
{
    match r {
        Ok(v) => Some(v),
        Err(SyscallError::Failed(e)) => if e.code == 0 {
            Some(0)
        } else {
            Some(u64::MAX - e.code as u64 + 1)
        },
        Err(SyscallError::Blocked) => None,
    }
}

/// Reads a register value in the platform's return convention as a result:
/// values in the top `MAX_ERRNO` of the range are negated error codes,
/// everything else is a success value (such as a mapped address).
pub fn from_register(reg: u64) -> (r: SyscallResult)
    ensures
        r == spec_from_register(reg),
        r matches Err(SyscallError::Failed(e)) ==> e.is_valid(),
        !(r matches Err(SyscallError::Blocked)),
{
    if reg >= u64::MAX - MAX_ERRNO + 1 {
        Err(SyscallError::Failed(Errno { code: (u64::MAX - reg + 1) as u16 }))
    } else {
        Ok(reg)
    }
}

/// Every completed result survives the trip through the guest register
/// unchanged, provided a success value does not itself look like an error.
pub proof fn lemma_register_round_trip(r: SyscallResult)
    requires
        r matches Err(SyscallError::Failed(e)) ==> e.is_valid(),
        r matches Ok(v) ==> !is_error_register(v),
        !(r matches Err(SyscallError::Blocked)),
    ensures
        spec_to_register(r) matches Some(reg) && spec_from_register(reg) == r,
{
}

/// Every register value survives the trip through a result unchanged: the
/// native layer never reinterprets what the legacy side returned.
pub proof fn lemma_register_pass_through(reg: u64)
    ensures
        spec_to_register(spec_from_register(reg)) == Some(reg),
{
}

} // verus!

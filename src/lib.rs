//! Syscall interception core of a discrete-event network simulator: the guest
//! return convention, a bounds-checked accessor for guest memory, a
//! per-process descriptor table over legacy and native files, and the dispatch
//! of syscall numbers to native handlers or to the legacy implementation.

pub mod errno;
pub mod memory;
pub mod stat;
pub mod descriptor;
pub mod handler;
pub mod trace;

use vstd::prelude::*;

verus! {

/// The crate-wide error taxonomy: one variant per failure class.
///
/// `Sys` carries the raw `errno` value reported by the kernel interface that
/// failed; the other variants describe failures the library itself detects.
#[derive(Clone, Copy, PartialEq, Eq, Structural, Debug)]
pub enum ProcError {
    /// Attaching to or detaching from the target failed (errno).
    Attach(i32),
    /// A register-set transfer was refused by the driver (errno).
    RegAccess(i32),
    /// A cross-process memory read or write failed (errno).
    MemAccess(i32),
    /// An injected system call returned a failure code, or the target made
    /// no forward progress.
    SyscallInjection,
    /// A kernel-exposed memory-map record could not be parsed.
    MapParse,
    /// A malformed command record or an argument outside the documented form.
    Protocol,
    /// Any other kernel call reported by errno.
    Sys(i32),
}

impl ProcError {
    /// A short description, one per failure class.
    pub fn describe(&self) -> (r: &'static str)
        ensures
            match self {
                ProcError::Attach(_) => r@ == "attach or detach failed"@,
                ProcError::RegAccess(_) => r@ == "register access failed"@,
                ProcError::MemAccess(_) => r@ == "cross-process memory access failed"@,
                ProcError::SyscallInjection => r@ == "injected syscall failed"@,
                ProcError::MapParse => r@ == "could not parse memory-map record"@,
                ProcError::Protocol => r@ == "malformed command or argument"@,
                ProcError::Sys(_) => r@ == "kernel call failed"@,
            },
    {
        match self {
            ProcError::Attach(_) => "attach or detach failed",
            ProcError::RegAccess(_) => "register access failed",
            ProcError::MemAccess(_) => "cross-process memory access failed",
            ProcError::SyscallInjection => "injected syscall failed",
            ProcError::MapParse => "could not parse memory-map record",
            ProcError::Protocol => "malformed command or argument",
            ProcError::Sys(_) => "kernel call failed",
        }
    }
}

} // verus!

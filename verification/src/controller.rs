//! The per-target controller: attach, stepping, waiting, cross-process
//! memory access, and scoped release.
//!
//! Every kernel interaction goes through one trusted wrapper per kernel
//! call, each stating only what holds of every outcome.  The controller's
//! own logic — error classification, the exactly-once detach of scoped
//! release, reading and decoding target memory — is verified.

use vstd::prelude::*;

use crate::errors::ProcError;
use crate::maps::MemoryMap;
use crate::bank::{RegisterBank, decode_current_syscall, find_svc_offset};
use nix::sys::wait::{waitpid, WaitPidFlag, WaitStatus};

verus! {

/// What a wait on the target reported.
pub enum WaitOutcome {
    /// The target exited with the given code.
    Exited(i32),
    /// The target was killed by the given signal.
    Signaled(i32),
    /// The target stopped under the given signal.
    Stopped(i32),
    /// Any other report.
    Other,
}

/// Relies on `nix::sys::ptrace::attach`: one `PTRACE_ATTACH` on the target,
/// reporting the kernel's errno on failure.
#[verifier::external_body]
fn ptrace_attach_raw(pid: i32) -> (r: Result<(), i32>)
    ensures
        r is Ok || r is Err,
{
    nix::sys::ptrace::attach(nix::unistd::Pid::from_raw(pid)).map_err(|e| e as i32)
}

/// Relies on `nix::sys::ptrace::detach`: one `PTRACE_DETACH`, delivering
/// `SIGSTOP` at detach when asked so the target stays paused.
#[verifier::external_body]
fn ptrace_detach_raw(pid: i32, stop: bool) -> (r: Result<(), i32>)
    ensures
        r is Ok || r is Err,
{
    let sig = if stop { Some(nix::sys::signal::Signal::SIGSTOP) } else { None };
    nix::sys::ptrace::detach(nix::unistd::Pid::from_raw(pid), sig).map_err(|e| e as i32)
}

/// Relies on `nix::sys::ptrace::step`: one `PTRACE_SINGLESTEP` without a
/// signal.
#[verifier::external_body]
fn ptrace_step_raw(pid: i32) -> (r: Result<(), i32>)
    ensures
        r is Ok || r is Err,
{
    nix::sys::ptrace::step(nix::unistd::Pid::from_raw(pid), None).map_err(|e| e as i32)
}

/// Relies on `nix::sys::ptrace::syscall`: one `PTRACE_SYSCALL` without a
/// signal, resuming the target until its next syscall boundary.
#[verifier::external_body]
fn ptrace_syscall_raw(pid: i32) -> (r: Result<(), i32>)
    ensures
        r is Ok || r is Err,
{
    nix::sys::ptrace::syscall(nix::unistd::Pid::from_raw(pid), None).map_err(|e| e as i32)
}

/// Relies on `nix::sys::ptrace::seize`: one `PTRACE_SEIZE` with no options,
/// the non-destructive attach of the image-transfer client.
#[verifier::external_body]
fn ptrace_seize_raw(pid: i32) -> (r: Result<(), i32>)
    ensures
        r is Ok || r is Err,
{
    nix::sys::ptrace::seize(nix::unistd::Pid::from_raw(pid), nix::sys::ptrace::Options::empty())
        .map_err(|e| e as i32)
}

/// Relies on `nix::sys::ptrace::interrupt`: one `PTRACE_INTERRUPT`.
#[verifier::external_body]
fn ptrace_interrupt_raw(pid: i32) -> (r: Result<(), i32>)
    ensures
        r is Ok || r is Err,
{
    nix::sys::ptrace::interrupt(nix::unistd::Pid::from_raw(pid)).map_err(|e| e as i32)
}

/// Relies on `nix::sys::wait::waitpid` with `WSTOPPED`: blocks until the
/// target stops (or dies), reporting the raw outcome class.
#[verifier::external_body]
fn wait_stopped_raw(pid: i32) -> (r: Result<WaitOutcome, i32>)
    ensures
        r is Ok || r is Err,
{
    match waitpid(nix::unistd::Pid::from_raw(pid), Some(WaitPidFlag::WSTOPPED)) {
        Ok(WaitStatus::Exited(_, code)) => Ok(WaitOutcome::Exited(code)),
        Ok(WaitStatus::Signaled(_, sig, _)) => Ok(WaitOutcome::Signaled(sig as i32)),
        Ok(WaitStatus::Stopped(_, sig)) => Ok(WaitOutcome::Stopped(sig as i32)),
        Ok(_) => Ok(WaitOutcome::Other),
        Err(e) => Err(e as i32),
    }
}

/// Relies on `nix::sys::wait::waitpid` with no flags: blocks until the
/// target changes state.
#[verifier::external_body]
fn wait_any_raw(pid: i32) -> (r: Result<WaitOutcome, i32>)
    ensures
        r is Ok || r is Err,
{
    match waitpid(nix::unistd::Pid::from_raw(pid), None) {
        Ok(WaitStatus::Exited(_, code)) => Ok(WaitOutcome::Exited(code)),
        Ok(WaitStatus::Signaled(_, sig, _)) => Ok(WaitOutcome::Signaled(sig as i32)),
        Ok(WaitStatus::Stopped(_, sig)) => Ok(WaitOutcome::Stopped(sig as i32)),
        Ok(_) => Ok(WaitOutcome::Other),
        Err(e) => Err(e as i32),
    }
}

/// Relies on `nix::sys::uio::process_vm_readv`: one cross-process read into
/// a buffer of `len` bytes; on success the buffer and the byte count read,
/// which never exceeds the buffer.
#[verifier::external_body]
fn vm_read_raw(pid: i32, addr: u64, len: usize) -> (r: Result<(Vec<u8>, usize), i32>)
    ensures
        match r {
            Ok((buf, n)) => buf@.len() == len && n <= len,
            Err(_) => true,
        },
{
    let mut buf = vec![0u8; len];
    let res = nix::sys::uio::process_vm_readv(
        nix::unistd::Pid::from_raw(pid),
        &mut [std::io::IoSliceMut::new(&mut buf)],
        &[nix::sys::uio::RemoteIoVec { base: addr as usize, len }],
    );
    match res {
        Ok(n) => Ok((buf, n)),
        Err(e) => Err(e as i32),
    }
}

/// Relies on `nix::sys::uio::process_vm_writev`: one cross-process write of
/// the whole buffer; on success the byte count written, never more than
/// was offered.
#[verifier::external_body]
fn vm_write_raw(pid: i32, addr: u64, data: &[u8]) -> (r: Result<usize, i32>)
    ensures
        match r {
            Ok(n) => n <= data@.len(),
            Err(_) => true,
        },
{
    let res = nix::sys::uio::process_vm_writev(
        nix::unistd::Pid::from_raw(pid),
        &[std::io::IoSlice::new(data)],
        &[nix::sys::uio::RemoteIoVec { base: addr as usize, len: data.len() }],
    );
    res.map_err(|e| e as i32)
}

/// One controller per target process.
///
/// Holds the target's id, the policy flag for scoped release, and a cached
/// memory-map list loaded once from the kernel's map text.  The ghost
/// detach counter underwrites the scoped-release law: release detaches
/// exactly once unless suppressed, and never propagates a detach failure.
pub struct ProcessController {
    pub pid: i32,
    pub detach_on_drop: bool,
    pub released: bool,
    pub memory_maps: Option<Vec<MemoryMap>>,
    pub detach_calls: Ghost<nat>,
}

impl ProcessController {
    /// How many detach requests this controller has issued.
    pub open spec fn detach_count(self) -> nat {
        self.detach_calls@
    }

    /// Whether scoped release has already run.
    pub open spec fn is_released(self) -> bool {
        self.released
    }

    /// The cached memory maps, if loaded.
    pub open spec fn spec_maps(self) -> Option<Vec<MemoryMap>> {
        self.memory_maps
    }

    /// A fresh controller: no detach issued, release pending, maps not yet
    /// loaded, detach-on-release policy on.
    pub fn new(pid: i32) -> (r: ProcessController)
        ensures
            r.pid == pid,
            r.detach_on_drop,
            !r.is_released(),
            r.detach_count() == 0,
            r.spec_maps() is None,
    {
        ProcessController {
            pid,
            detach_on_drop: true,
            released: false,
            memory_maps: None,
            detach_calls: Ghost(0),
        }
    }

    /// Attach to the target and wait for it to reach the stopped state.
    pub fn attach(&self) -> (r: Result<(), ProcError>)
        ensures
            r matches Err(e) ==> e matches ProcError::Attach(_),
    {
        match ptrace_attach_raw(self.pid) {
            Ok(()) => {},
            Err(e) => {
                return Err(ProcError::Attach(e));
            },
        }
        match wait_stopped_raw(self.pid) {
            Ok(_) => Ok(()),
            Err(e) => Err(ProcError::Attach(e)),
        }
    }

    /// Seize and interrupt the target without delivering a signal stop,
    /// then wait for it to stop: the non-destructive attach.
    pub fn seize_and_interrupt(&self) -> (r: Result<(), ProcError>)
        ensures
            r matches Err(e) ==> e matches ProcError::Attach(_),
    {
        match ptrace_seize_raw(self.pid) {
            Ok(()) => {},
            Err(e) => {
                return Err(ProcError::Attach(e));
            },
        }
        match ptrace_interrupt_raw(self.pid) {
            Ok(()) => {},
            Err(e) => {
                return Err(ProcError::Attach(e));
            },
        }
        match wait_stopped_raw(self.pid) {
            Ok(_) => Ok(()),
            Err(e) => Err(ProcError::Attach(e)),
        }
    }

    /// Single-step the target one instruction and wait for the stop.
    pub fn step_and_wait(&self) -> (r: Result<(), ProcError>)
        ensures
            r matches Err(e) ==> e matches ProcError::Sys(_),
    {
        match ptrace_step_raw(self.pid) {
            Ok(()) => {},
            Err(e) => {
                return Err(ProcError::Sys(e));
            },
        }
        match wait_stopped_raw(self.pid) {
            Ok(_) => Ok(()),
            Err(e) => Err(ProcError::Sys(e)),
        }
    }

    /// Resume the target until its next syscall boundary, then wait for
    /// the stop.
    pub fn wait_for_syscall(&self) -> (r: Result<(), ProcError>)
        ensures
            r matches Err(e) ==> e matches ProcError::Sys(_),
    {
        match ptrace_syscall_raw(self.pid) {
            Ok(()) => {},
            Err(e) => {
                return Err(ProcError::Sys(e));
            },
        }
        match wait_stopped_raw(self.pid) {
            Ok(_) => Ok(()),
            Err(e) => Err(ProcError::Sys(e)),
        }
    }

    /// Resume the target until its next syscall boundary, then wait for
    /// any state change.
    pub fn stop_at_next_syscall(&self) -> (r: Result<(), ProcError>)
        ensures
            r matches Err(e) ==> e matches ProcError::Sys(_),
    {
        match ptrace_syscall_raw(self.pid) {
            Ok(()) => {},
            Err(e) => {
                return Err(ProcError::Sys(e));
            },
        }
        match wait_any_raw(self.pid) {
            Ok(_) => Ok(()),
            Err(e) => Err(ProcError::Sys(e)),
        }
    }

    /// Let a stopped-at-syscall target run on to the other side of the
    /// syscall, then wait for any state change.
    pub fn continue_syscall(&self) -> (r: Result<(), ProcError>)
        ensures
            r matches Err(e) ==> e matches ProcError::Sys(_),
    {
        self.stop_at_next_syscall()
    }

    /// Wait for the target to change state in any way.
    pub fn waitpid(&self) -> (r: Result<WaitOutcome, ProcError>)
        ensures
            r matches Err(e) ==> e matches ProcError::Sys(_),
    {
        match wait_any_raw(self.pid) {
            Ok(w) => Ok(w),
            Err(e) => Err(ProcError::Sys(e)),
        }
    }

    /// Detach from the target, leaving it running.
    pub fn detach(&mut self) -> (r: Result<(), ProcError>)
        ensures
            final(self).detach_count() == old(self).detach_count() + 1,
            final(self).pid == old(self).pid,
            final(self).detach_on_drop == old(self).detach_on_drop,
            final(self).is_released() == old(self).is_released(),
            final(self).spec_maps() == old(self).spec_maps(),
            r matches Err(e) ==> e matches ProcError::Attach(_),
    {
        let res = ptrace_detach_raw(self.pid, false);
        proof {
            self.detach_calls@ = self.detach_calls@ + 1;
        }
        match res {
            Ok(()) => Ok(()),
            Err(e) => Err(ProcError::Attach(e)),
        }
    }

    /// Detach with a stop signal delivered at detach, so the target stays
    /// paused while no longer traced.
    pub fn detach_and_stop(&mut self) -> (r: Result<(), ProcError>)
        ensures
            final(self).detach_count() == old(self).detach_count() + 1,
            final(self).pid == old(self).pid,
            final(self).detach_on_drop == old(self).detach_on_drop,
            final(self).is_released() == old(self).is_released(),
            final(self).spec_maps() == old(self).spec_maps(),
            r matches Err(e) ==> e matches ProcError::Attach(_),
    {
        let res = ptrace_detach_raw(self.pid, true);
        proof {
            self.detach_calls@ = self.detach_calls@ + 1;
        }
        match res {
            Ok(()) => Ok(()),
            Err(e) => Err(ProcError::Attach(e)),
        }
    }

    /// Suppress the detach that scoped release would issue.
    pub fn suppress_detach(&mut self)
        ensures
            !final(self).detach_on_drop,
            final(self).pid == old(self).pid,
            final(self).is_released() == old(self).is_released(),
            final(self).detach_count() == old(self).detach_count(),
            final(self).spec_maps() == old(self).spec_maps(),
    {
        self.detach_on_drop = false;
    }

    /// Scoped release: detach exactly once — unless the policy flag
    /// suppressed it or release already ran — and swallow any detach
    /// failure rather than propagate it out of the release path.
    pub fn release(&mut self)
        ensures
            final(self).is_released(),
            old(self).detach_on_drop && !old(self).is_released() ==> final(self).detach_count()
                == old(self).detach_count() + 1,
            !(old(self).detach_on_drop && !old(self).is_released()) ==> final(self).detach_count()
                == old(self).detach_count(),
            final(self).pid == old(self).pid,
    {
        if self.detach_on_drop && !self.released {
            let _ = self.detach();
        }
        self.released = true;
    }

    /// Load the controller's memory-map cache from the kernel's map text,
    /// computed once: a second load leaves the first result in place.
    pub fn load_memory_maps(&mut self, text: &str) -> (r: Result<(), ProcError>)
        ensures
            final(self).pid == old(self).pid,
            final(self).detach_on_drop == old(self).detach_on_drop,
            final(self).is_released() == old(self).is_released(),
            final(self).detach_count() == old(self).detach_count(),
            old(self).spec_maps() is Some ==> final(self).spec_maps() == old(self).spec_maps()
                && r is Ok,
            r matches Err(e) ==> e == ProcError::MapParse,
            old(self).spec_maps() is None ==> (final(self).spec_maps() matches Some(v)
                ==> forall|i: int| 0 <= i < v@.len() ==> (#[trigger] v@[i]).wf()),
    {
        if self.memory_maps.is_some() {
            return Ok(());
        }
        match crate::maps::parse_memory_maps(text) {
            Ok(v) => {
                self.memory_maps = Some(v);
                Ok(())
            },
            Err(_) => Err(ProcError::MapParse),
        }
    }

    /// Whether the map cache is loaded.
    pub fn has_memory_maps(&self) -> (r: bool)
        ensures
            r == (self.spec_maps() is Some),
    {
        self.memory_maps.is_some()
    }

    /// Borrow the cached memory maps.
    pub fn memory_maps(&self) -> (r: &Option<Vec<MemoryMap>>)
        ensures
            *r == self.spec_maps(),
    {
        &self.memory_maps
    }

    /// Read exactly `count` bytes of target memory; a short or failed read
    /// is a memory-access error.
    pub fn read_bytes(&self, addr: u64, count: usize) -> (r: Result<Vec<u8>, ProcError>)
        ensures
            r matches Ok(v) ==> v@.len() == count,
            r matches Err(e) ==> e matches ProcError::MemAccess(_),
    {
        match vm_read_raw(self.pid, addr, count) {
            Ok((buf, n)) => {
                if n == count {
                    Ok(buf)
                } else {
                    Err(ProcError::MemAccess(0))
                }
            },
            Err(e) => Err(ProcError::MemAccess(e)),
        }
    }

    /// Read `count` bytes of target memory at `addr` and decode them as
    /// text, as the string-read primitive does: the decoded text re-encodes
    /// to exactly the bytes read.
    pub fn read_string(&self, addr: u64, count: usize) -> (r: Result<String, ProcError>)
        ensures
            r matches Ok(s) ==> vstd::utf8::encode_utf8(s@).len() == count,
            r matches Err(e) ==> (e matches ProcError::MemAccess(_) || e == ProcError::Protocol),
    {
        let buf = match self.read_bytes(addr, count) {
            Ok(v) => v,
            Err(e) => {
                return Err(e);
            },
        };
        let ghost bv = buf@;
        match crate::maps::string_from_utf8(buf) {
            Ok(s) => {
                proof {
                    vstd::utf8::decode_utf8_encode_utf8(bv);
                }
                Ok(s)
            },
            Err(_) => Err(ProcError::Protocol),
        }
    }

    /// Write the bytes into the target at `addr`, the cross-process write
    /// primitive; returns the address written.  A short write — fewer
    /// bytes accepted than offered — is a memory-access error, never a
    /// silent partial copy.
    pub fn inject_bytes_at_addr(&self, bytes: &[u8], addr: u64) -> (r: Result<u64, ProcError>)
        ensures
            r matches Ok(a) ==> a == addr,
            r matches Err(e) ==> e matches ProcError::MemAccess(_),
    {
        match vm_write_raw(self.pid, addr, bytes) {
            Ok(n) => {
                if n != bytes.len() {
                    Err(ProcError::MemAccess(0))
                } else {
                    Ok(addr)
                }
            },
            Err(e) => Err(ProcError::MemAccess(e)),
        }
    }

    /// Probe what syscall the target is entering: read the 4 bytes under
    /// the fetched bank's program counter; at a trap instruction, the pair
    /// is exactly (register 8, register 0) of that bank.
    pub fn current_syscall(&self, bank: &RegisterBank) -> (r: Result<
        Option<(u64, u64)>,
        ProcError,
    >)
        requires
            bank@.wf(),
        ensures
            match r {
                Ok(p) => (p matches Some(pair) ==> pair.0 == bank@.regs[8] && pair.1
                    == bank@.regs[0]),
                Err(e) => e matches ProcError::MemAccess(_),
            },
    {
        let buf = match self.read_bytes(bank.pc, 4) {
            Ok(v) => v,
            Err(e) => {
                return Err(e);
            },
        };
        let word = vstd::bytes::u32_from_le_bytes(buf.as_slice());
        Ok(decode_current_syscall(bank, word))
    }

    /// Search the target's `[vdso]` region — guaranteed to contain a trap
    /// instruction — for the first one, and return its absolute address,
    /// which lies within that region.
    ///
    /// Errors are classified: a protocol error when the map cache is not
    /// loaded or the region does not fit the address space, a
    /// memory-access error when the region could not be read, and a
    /// syscall-injection error when no region is the `[vdso]` or no trap
    /// was found in it.
    pub fn find_svc_instruction(&self) -> (r: Result<u64, ProcError>)
        ensures
            self.spec_maps() is None ==> r == Err::<u64, ProcError>(ProcError::Protocol),
            match r {
                Ok(a) => exists|i: int|
                    {
                        &&& 0 <= i < self.spec_maps().unwrap()@.len()
                        &&& crate::maps::is_vdso_label(
                            (#[trigger] self.spec_maps().unwrap()@[i]).label@,
                        )
                        &&& self.spec_maps().unwrap()@[i].base_address <= a
                        &&& a + 4 <= self.spec_maps().unwrap()@[i].base_address
                            + self.spec_maps().unwrap()@[i].size
                    },
                Err(e) => e == ProcError::Protocol || e matches ProcError::MemAccess(_) || e
                    == ProcError::SyscallInjection,
            },
    {
        let maps = match &self.memory_maps {
            Some(v) => v,
            None => {
                return Err(ProcError::Protocol);
            },
        };
        let mut i: usize = 0;
        while i < maps.len()
            invariant
                i <= maps@.len(),
                self.spec_maps() == Some(*maps),
            decreases maps@.len() - i,
        {
            if crate::maps::label_is_vdso(&maps[i].label) {
                let m = &maps[i];
                if m.size > usize::MAX as u64 || m.base_address > u64::MAX - m.size {
                    return Err(ProcError::Protocol);
                }
                let buf = match self.read_bytes(m.base_address, m.size as usize) {
                    Ok(v) => v,
                    Err(e) => {
                        return Err(e);
                    },
                };
                match find_svc_offset(buf.as_slice()) {
                    Some(off) => {
                        proof {
                            let idx = i as int;
                            assert(self.spec_maps().unwrap()@[idx] == maps@[idx]);
                            assert(crate::maps::is_vdso_label(
                                self.spec_maps().unwrap()@[idx].label@,
                            ));
                            assert(off + 4 <= m.size);
                        }
                        return Ok(m.base_address + off as u64);
                    },
                    None => {
                        return Err(ProcError::SyscallInjection);
                    },
                }
            }
            i = i + 1;
        }
        Err(ProcError::SyscallInjection)
    }
}

} // verus!

//! The composite operations, as verified machines over the injection
//! protocol: placing bytes into the target, rebuilding a snapshot region,
//! and redirecting standard output and error.

use vstd::prelude::*;

use crate::bank::{RegisterBank, BankView, spec_with_syscall};
use crate::controller::ProcessController;
use crate::errors::ProcError;
use crate::exchange::{DriverCall, PlanRunner, RunnerCall};
use crate::maps::MemoryMap;
use crate::plans::{
    SyscallSpec, mmap_anon_call, map_fill_calls, redirect_calls, NO_FD, SYS_MMAP, PROT_READ,
    PROT_WRITE, MAP_PRIVATE, MAP_ANONYMOUS,
};

verus! {

/// The arguments of the anonymous mapping that receives injected bytes.
pub open spec fn spec_inject_mmap_args(len: int) -> Seq<u64> {
    seq![0u64, len as u64, (PROT_READ | PROT_WRITE) as u64, (MAP_PRIVATE | MAP_ANONYMOUS) as u64, NO_FD, 0u64]
}

/// What the driver of a byte injection or a region rebuild must do next.
pub enum OpCall {
    /// Write the bank into the target's register set, single-step the
    /// target, then fetch its register set and report it through
    /// `on_regs`.
    StoreRegs(RegisterBank),
    /// Single-step the target, then fetch its register set and report it
    /// through `on_regs`.
    StepThenFetchRegs,
    /// Fetch the (already stopped) target's register set — without
    /// stepping — and report it through `on_regs`.
    FetchRegs,
    /// The operation completed with this value.
    Done(u64),
}

/// The progress of one byte injection.
pub enum InjectStage {
    /// The anonymous mapping is being obtained.
    Mapping,
    /// The bytes are in the target.
    Finished,
}

/// Place bytes into the target: map a fresh private anonymous
/// readable+writable region of the bytes' size, then copy the bytes into
/// it with the cross-process write primitive.  Completes with the region's
/// base address.
pub struct InjectBytesRun {
    pub data: Vec<u8>,
    pub pc: u64,
    pub runner: PlanRunner,
    pub stage: InjectStage,
}

impl InjectBytesRun {
    /// The machine's invariant: the single planned call is the anonymous
    /// mapping for exactly these bytes at the shared trap address.
    pub open spec fn inv(self) -> bool {
        &&& self.runner.inv()
        &&& self.runner.pc == self.pc
        &&& self.runner.calls@.len() == 1
        &&& self.runner.calls@[0].sysno == SYS_MMAP
        &&& self.runner.calls@[0].args@ == spec_inject_mmap_args(self.data@.len() as int)
        &&& self.runner.calls@[0].expect_mapped
        &&& (self.stage is Mapping ==> !(self.runner.phase is Complete) && !(self.runner.phase
            is Failed))
    }

    /// Begin an injection of `data`; drive by fetching the bank and calling
    /// `on_regs`.
    pub fn start(data: Vec<u8>, pc: u64) -> (r: InjectBytesRun)
        requires
            data@.len() <= u64::MAX,
        ensures
            r.inv(),
            r.stage is Mapping,
            r.data@ == data@,
            r.pc == pc,
            r.runner.phase is NeedFetch,
    {
        let len = data.len();
        let call = mmap_anon_call(0, len as u64, PROT_READ | PROT_WRITE);
        let mut calls: Vec<SyscallSpec> = Vec::new();
        calls.push(call);
        let runner = PlanRunner::start(calls, pc);
        InjectBytesRun { data, pc, runner, stage: InjectStage::Mapping }
    }

    /// Consume a fetched bank.  The machine's answer is fixed by its state
    /// and the bank: a fresh run always stores the bank loaded with the
    /// anonymous `mmap` for the bytes; a counter still at the trap always
    /// steps; a counter past the trap delivers the mapping result — the
    /// failure value aborts with a syscall-injection error, and otherwise
    /// the bytes are written there, the one step that can also fail, with a
    /// memory-access error.
    pub fn on_regs(&mut self, c: &ProcessController, bank: &RegisterBank) -> (r: Result<
        OpCall,
        ProcError,
    >)
        requires
            old(self).inv(),
            old(self).stage is Mapping,
            bank@.wf(),
        ensures
            final(self).inv(),
            final(self).data@ == old(self).data@,
            final(self).pc == old(self).pc,
            match r {
                Ok(rc) => match rc {
                    OpCall::StoreRegs(b) => b@ == spec_with_syscall(
                        bank@,
                        SYS_MMAP,
                        spec_inject_mmap_args(old(self).data@.len() as int),
                        old(self).pc,
                    ) && final(self).stage is Mapping,
                    OpCall::StepThenFetchRegs => final(self).stage is Mapping,
                    OpCall::FetchRegs => final(self).stage is Mapping,
                    OpCall::Done(addr) => addr != NO_FD && final(self).stage is Finished,
                },
                Err(_) => !(final(self).stage is Mapping),
            },
            old(self).runner.phase is NeedFetch ==> (r matches Ok(rc) && rc is StoreRegs),
            old(self).runner.phase is Driving && bank@.pc == old(self).pc ==> r == Ok::<
                OpCall,
                ProcError,
            >(OpCall::StepThenFetchRegs),
            old(self).runner.phase is Driving && bank@.pc != old(self).pc && bank@.regs[0]
                == NO_FD ==> r == Err::<OpCall, ProcError>(ProcError::SyscallInjection),
            old(self).runner.phase is Driving && bank@.pc != old(self).pc && bank@.regs[0]
                != NO_FD ==> (r == Ok::<OpCall, ProcError>(OpCall::Done(bank@.regs[0])) || (
            r matches Err(e) && e matches ProcError::MemAccess(_))),
    {
        let rc = match self.runner.on_regs(bank) {
            Ok(rc) => rc,
            Err(e) => {
                self.stage = InjectStage::Finished;
                return Err(e);
            },
        };
        match rc {
            RunnerCall::StoreRegs(b) => Ok(OpCall::StoreRegs(b)),
            RunnerCall::StepThenFetchRegs => Ok(OpCall::StepThenFetchRegs),
            RunnerCall::FetchRegs => {
                proof {
                    assert(false);
                }
                Err(ProcError::SyscallInjection)
            },
            RunnerCall::Complete => {
                let addr = self.runner.results[0];
                proof {
                    assert(crate::exchange::results_ok(self.runner.calls@, self.runner.results@));
                    assert(self.runner.calls@[0].expect_mapped);
                    assert(self.runner.results@[0] != NO_FD);
                }
                match c.inject_bytes_at_addr(self.data.as_slice(), addr) {
                    Ok(_) => {
                        self.stage = InjectStage::Finished;
                        Ok(OpCall::Done(addr))
                    },
                    Err(e) => {
                        self.stage = InjectStage::Finished;
                        Err(e)
                    },
                }
            },
        }
    }
}

/// The progress of rebuilding one region.
pub enum FillStage {
    /// Unmap and remap in flight.
    Remapping,
    /// The payload is written; the protection fix-up (for regions recorded
    /// non-writable) is in flight.
    Protecting,
    /// The region is rebuilt.
    Finished,
}

/// Rebuild one snapshot region inside the target: unmap its range, map a
/// fresh private anonymous region there with the recorded protections plus
/// write, copy the payload in, and drop the protections back when the
/// region was recorded non-writable.
pub struct MapFillRun {
    pub region: MemoryMap,
    pub pc: u64,
    pub runner: PlanRunner,
    pub stage: FillStage,
}

impl MapFillRun {
    /// The machine's invariant: the planned calls are exactly the region's
    /// rebuild plan, split around the payload copy.
    pub open spec fn inv(self) -> bool {
        &&& self.runner.inv()
        &&& self.runner.pc == self.pc
        &&& (self.stage is Remapping ==> {
            &&& self.runner.calls@.len() == 2
            &&& self.runner.calls@[0].sysno == crate::plans::SYS_MUNMAP
            &&& self.runner.calls@[0].args@ == seq![self.region.base_address, self.region.size]
            &&& !self.runner.calls@[0].expect_mapped
            &&& self.runner.calls@[1].sysno == SYS_MMAP
            &&& self.runner.calls@[1].expect_mapped
            &&& !(self.runner.phase is Complete) && !(self.runner.phase is Failed)
        })
        &&& (self.stage is Protecting ==> {
            &&& self.runner.calls@.len() == 1
            &&& !self.runner.calls@[0].expect_mapped
            &&& self.runner.calls@[0].sysno == crate::plans::SYS_MPROTECT
            &&& self.runner.calls@[0].args@ == seq![
                self.region.base_address,
                self.region.size,
                crate::plans::spec_prot_of(
                    self.region.readable,
                    self.region.writable,
                    self.region.executable,
                ),
            ]
            &&& !(self.runner.phase is Complete) && !(self.runner.phase is Failed)
        })
    }

    /// Begin rebuilding `region`; drive by fetching the bank and calling
    /// `on_regs`.
    pub fn start(region: MemoryMap, pc: u64) -> (r: MapFillRun)
        ensures
            r.inv(),
            r.stage is Remapping,
            r.region == region,
            r.pc == pc,
    {
        let calls_all = map_fill_calls(&region);
        let mut calls: Vec<SyscallSpec> = Vec::new();
        let mut it = calls_all;
        // the first two calls — unmap, then map — run before the payload copy
        let c1 = it.remove(0);
        let c2 = it.remove(0);
        calls.push(c1);
        calls.push(c2);
        let runner = PlanRunner::start(calls, pc);
        MapFillRun { region, pc, runner, stage: FillStage::Remapping }
    }

    /// Consume a fetched bank.  Completion (`Done(base)`) means the unmap
    /// and checked remap ran, the payload was copied to the region's base,
    /// and — for a region recorded non-writable — the protections were
    /// dropped back by the final call.  Failure is confined to two paths:
    /// the checked remap's result register came back as the failure value
    /// (a syscall-injection error), or the payload copy itself failed (a
    /// memory-access error).
    pub fn on_regs(&mut self, c: &ProcessController, bank: &RegisterBank) -> (r: Result<
        OpCall,
        ProcError,
    >)
        requires
            old(self).inv(),
            !(old(self).stage is Finished),
            bank@.wf(),
        ensures
            final(self).inv(),
            final(self).region == old(self).region,
            final(self).pc == old(self).pc,
            match r {
                Ok(rc) => match rc {
                    OpCall::Done(a) => final(self).stage is Finished && a
                        == old(self).region.base_address,
                    _ => !(final(self).stage is Finished),
                },
                Err(e) => final(self).stage is Finished && {
                    ||| (e == ProcError::SyscallInjection && old(self).stage is Remapping
                        && old(self).runner.phase is Driving && bank@.pc != old(self).pc
                        && old(self).runner.idx == 1 && bank@.regs[0] == NO_FD)
                    ||| (e matches ProcError::MemAccess(_) && old(self).stage is Remapping
                        && old(self).runner.phase is Driving && bank@.pc != old(self).pc
                        && old(self).region.data@.len() > 0)
                },
            },
            old(self).runner.phase is NeedFetch ==> (r matches Ok(rc) && rc is StoreRegs),
            old(self).runner.phase is Driving && bank@.pc == old(self).pc ==> r == Ok::<
                OpCall,
                ProcError,
            >(OpCall::StepThenFetchRegs),
    {
        let rc = match self.runner.on_regs(bank) {
            Ok(rc) => rc,
            Err(e) => {
                self.stage = FillStage::Finished;
                return Err(e);
            },
        };
        match rc {
            RunnerCall::StoreRegs(b) => Ok(OpCall::StoreRegs(b)),
            RunnerCall::StepThenFetchRegs => Ok(OpCall::StepThenFetchRegs),
            RunnerCall::FetchRegs => Ok(OpCall::FetchRegs),
            RunnerCall::Complete => {
                match self.stage {
                    FillStage::Remapping => {
                        if self.region.data.len() > 0 {
                            match c.inject_bytes_at_addr(
                                self.region.data.as_slice(),
                                self.region.base_address,
                            ) {
                                Ok(_) => {},
                                Err(e) => {
                                    self.stage = FillStage::Finished;
                                    return Err(e);
                                },
                            }
                        }
                        if !self.region.writable {
                            let prot = crate::plans::prot_of(
                                self.region.readable,
                                self.region.writable,
                                self.region.executable,
                            );
                            let call = crate::plans::mprotect_call(
                                self.region.base_address,
                                self.region.size,
                                prot,
                            );
                            let mut calls: Vec<SyscallSpec> = Vec::new();
                            calls.push(call);
                            self.runner = PlanRunner::start(calls, self.pc);
                            self.stage = FillStage::Protecting;
                            Ok(OpCall::FetchRegs)
                        } else {
                            self.stage = FillStage::Finished;
                            Ok(OpCall::Done(self.region.base_address))
                        }
                    },
                    FillStage::Protecting => {
                        self.stage = FillStage::Finished;
                        Ok(OpCall::Done(self.region.base_address))
                    },
                    FillStage::Finished => {
                        proof {
                            assert(false);
                        }
                        Err(ProcError::SyscallInjection)
                    },
                }
            },
        }
    }
}

/// The progress of a stdio redirect.
pub enum RedirectStage {
    /// Probing for a pending terminal read to cancel.
    Probe,
    /// The pending read was cancelled; the next bank is the one to save.
    Save,
    /// The terminal path is being placed into the target.
    Inject,
    /// The close and open calls are in flight.
    Calls,
    /// The saved bank has been handed back for restoration.
    Finished,
}

/// What the redirect driver must do next.
pub enum RedirectCall {
    /// Append an empty line to the target's terminal input queue, so its
    /// pending read returns; then single-step, fetch the bank, and report
    /// it through `on_regs`.
    StuffStdinThenStepThenFetchRegs,
    /// As in [`DriverCall::StoreRegs`].
    StoreRegs(RegisterBank),
    /// As in [`DriverCall::StepThenFetchRegs`].
    StepThenFetchRegs,
    /// Fetch the register set and report it through `on_regs`.
    FetchRegs,
    /// Write this bank — the one saved before any syscall was injected —
    /// back into the target, completing the redirect.
    RestoreRegs(RegisterBank),
}

/// Redirect the target's standard output and error to a terminal.
///
/// The protocol: cancel a pending terminal read if one is under way; save
/// the register bank; place the terminal path (with its terminating NUL)
/// into the target; close descriptors 1 and 2 and open the path twice, the
/// kernel assigning the freed slots in order; finally hand the saved bank
/// back for restoration — the target's registers after the redirect equal
/// its registers before it.
pub struct RedirectRun {
    /// The terminal path bytes, NUL-terminated.
    pub path_bytes: Vec<u8>,
    pub pc: u64,
    pub stage: RedirectStage,
    pub saved: Option<RegisterBank>,
    /// The bank observed at the save point.
    pub saved0: Ghost<Option<BankView>>,
    pub inject: InjectBytesRun,
    pub calls: PlanRunner,
}

impl RedirectRun {
    /// The machine's invariant: the saved bank is the one observed at the
    /// save point, and each stage's inner machine is consistent.
    pub open spec fn inv(self) -> bool {
        &&& self.path_bytes@.len() <= u64::MAX
        &&& (self.stage is Probe ==> self.saved is None)
        &&& (self.stage is Save ==> self.saved is None)
        &&& ((self.stage is Inject || self.stage is Calls) ==> (self.saved matches Some(b)
            && self.saved0@ == Some(b@)))
        &&& (self.stage is Inject ==> self.inject.inv() && self.inject.stage is Mapping
            && self.inject.pc == self.pc && self.inject.data@ == self.path_bytes@)
        &&& (self.stage is Calls ==> self.calls.inv() && self.calls.pc == self.pc && !(
        self.calls.phase is Complete) && !(self.calls.phase is Failed) && self.calls.calls@.len()
            == 4 && (forall|i: int|
            0 <= i < self.calls.calls@.len() ==> !(#[trigger] self.calls.calls@[i]).expect_mapped))
    }

    /// Begin a redirect to the NUL-terminated terminal path; drive by
    /// fetching the bank and calling `on_regs`.
    pub fn start(path_bytes: Vec<u8>, pc: u64) -> (r: RedirectRun)
        requires
            path_bytes@.len() <= u64::MAX,
        ensures
            r.inv(),
            r.stage is Probe,
            r.path_bytes@ == path_bytes@,
            r.pc == pc,
    {
        let inject = InjectBytesRun::start(Vec::new(), pc);
        let calls = PlanRunner::start(redirect_calls(0), pc);
        RedirectRun {
            path_bytes,
            pc,
            stage: RedirectStage::Probe,
            saved: None,
            saved0: Ghost(None),
            inject,
            calls,
        }
    }

    /// Consume a fetched bank and decide the next driver action.
    ///
    /// The restoration guarantee: the bank handed back in
    /// [`RedirectCall::RestoreRegs`] is exactly the bank fetched at the
    /// save point, before any register was touched.  Failure is confined
    /// to the probe's memory read and to the path injection (the checked
    /// `mmap` result came back as the failure value, or the path copy
    /// failed); the save step and the close/open calls themselves cannot
    /// fail.
    pub fn on_regs(&mut self, c: &ProcessController, bank: &RegisterBank) -> (r: Result<
        RedirectCall,
        ProcError,
    >)
        requires
            old(self).inv(),
            !(old(self).stage is Finished),
            bank@.wf(),
        ensures
            final(self).inv(),
            final(self).pc == old(self).pc,
            final(self).path_bytes@ == old(self).path_bytes@,
            match r {
                Ok(rc) => match rc {
                    RedirectCall::RestoreRegs(b) => final(self).stage is Finished
                        && final(self).saved0@ == Some(b@) && ((old(self).stage is Inject || old(
                        self,
                    ).stage is Calls) ==> Some(b@) == old(self).saved0@),
                    RedirectCall::StuffStdinThenStepThenFetchRegs => final(self).stage is Save,
                    _ => !(final(self).stage is Finished),
                },
                Err(e) => {
                    ||| (old(self).stage is Probe && e matches ProcError::MemAccess(_))
                    ||| (old(self).stage is Inject && ((e == ProcError::SyscallInjection
                        && bank@.pc != old(self).pc && bank@.regs[0] == NO_FD) || e matches ProcError::MemAccess(_)))
                },
            },
            (old(self).stage is Probe || old(self).stage is Save) ==> (r matches Ok(rc) ==> (
            !(rc is StuffStdinThenStepThenFetchRegs) ==> final(self).saved0@ == Some(bank@))),
            (old(self).stage is Inject || old(self).stage is Calls) ==> final(self).saved0@
                == old(self).saved0@,
    {
        match self.stage {
            RedirectStage::Probe => {
                let probe = match c.current_syscall(bank) {
                    Ok(p) => p,
                    Err(e) => {
                        return Err(e);
                    },
                };
                if crate::bank::is_pending_stdin_read(&probe) {
                    self.stage = RedirectStage::Save;
                    Ok(RedirectCall::StuffStdinThenStepThenFetchRegs)
                } else {
                    self.save_and_inject(c, bank)
                }
            },
            RedirectStage::Save => self.save_and_inject(c, bank),
            RedirectStage::Inject => {
                let rc = match self.inject.on_regs(c, bank) {
                    Ok(rc) => rc,
                    Err(e) => {
                        self.stage = RedirectStage::Finished;
                        return Err(e);
                    },
                };
                match rc {
                    OpCall::StoreRegs(b) => Ok(RedirectCall::StoreRegs(b)),
                    OpCall::StepThenFetchRegs => Ok(RedirectCall::StepThenFetchRegs),
                    OpCall::FetchRegs => Ok(RedirectCall::FetchRegs),
                    OpCall::Done(addr) => {
                        self.calls = PlanRunner::start(redirect_calls(addr), self.pc);
                        self.stage = RedirectStage::Calls;
                        Ok(RedirectCall::FetchRegs)
                    },
                }
            },
            RedirectStage::Calls => {
                let rc = match self.calls.on_regs(bank) {
                    Ok(rc) => rc,
                    Err(e) => {
                        proof {
                            assert(false);
                        }
                        self.stage = RedirectStage::Finished;
                        return Err(e);
                    },
                };
                match rc {
                    RunnerCall::StoreRegs(b) => Ok(RedirectCall::StoreRegs(b)),
                    RunnerCall::StepThenFetchRegs => Ok(RedirectCall::StepThenFetchRegs),
                    RunnerCall::FetchRegs => Ok(RedirectCall::FetchRegs),
                    RunnerCall::Complete => {
                        let saved = match &self.saved {
                            Some(b) => b.duplicate(),
                            None => {
                                proof {
                                    assert(false);
                                }
                                return Err(ProcError::Protocol);
                            },
                        };
                        self.stage = RedirectStage::Finished;
                        Ok(RedirectCall::RestoreRegs(saved))
                    },
                }
            },
            RedirectStage::Finished => {
                proof {
                    assert(false);
                }
                Err(ProcError::Protocol)
            },
        }
    }

    /// Save the bank observed now and begin injecting the path bytes.
    fn save_and_inject(&mut self, c: &ProcessController, bank: &RegisterBank) -> (r: Result<
        RedirectCall,
        ProcError,
    >)
        requires
            old(self).inv(),
            old(self).stage is Probe || old(self).stage is Save,
            bank@.wf(),
        ensures
            final(self).inv(),
            final(self).pc == old(self).pc,
            final(self).path_bytes@ == old(self).path_bytes@,
            r matches Ok(rc) && !(rc is RestoreRegs) && !(rc is StuffStdinThenStepThenFetchRegs)
                && !(final(self).stage is Finished) && final(self).saved0@ == Some(bank@),
    {
        self.saved = Some(bank.duplicate());
        self.saved0 = Ghost(Some(bank@));
        let mut data: Vec<u8> = Vec::new();
        let mut i: usize = 0;
        while i < self.path_bytes.len()
            invariant
                i <= self.path_bytes@.len(),
                data@ =~= self.path_bytes@.take(i as int),
            decreases self.path_bytes@.len() - i,
        {
            data.push(self.path_bytes[i]);
            i = i + 1;
        }
        proof {
            assert(data@ =~= self.path_bytes@);
        }
        let mut inject = InjectBytesRun::start(data, self.pc);
        let rc = match inject.on_regs(c, bank) {
            Ok(rc) => rc,
            Err(e) => {
                proof {
                    assert(false);
                }
                self.stage = RedirectStage::Finished;
                return Err(e);
            },
        };
        match rc {
            OpCall::StoreRegs(b) => {
                self.inject = inject;
                self.stage = RedirectStage::Inject;
                Ok(RedirectCall::StoreRegs(b))
            },
            _ => {
                proof {
                    assert(false);
                }
                Err(ProcError::Protocol)
            },
        }
    }
}

} // verus!

verus! {

use crate::exchange::{StepOutOfSyscall, NudgeCall, SyscallInjection};
use crate::plans::{SYS_EXECVE, execve_call};

/// How a takeover ends: detach with a stop signal so the replaced image
/// can be inspected, or step the `execve` through and detach plainly.
pub enum TakeoverEnd {
    DetachStop,
    Detach,
}

/// What the takeover driver must do next.
pub enum TakeoverCall {
    /// As in [`OpCall::StoreRegs`].
    StoreRegs(RegisterBank),
    /// Write the bank into the target's register set — without stepping —
    /// and report back through `on_stored`.
    StoreRegsOnly(RegisterBank),
    /// As in [`OpCall::StepThenFetchRegs`].
    StepThenFetchRegs,
    /// As in [`OpCall::FetchRegs`].
    FetchRegs,
    /// The takeover is complete; detach as the value says.
    Done(TakeoverEnd),
}

/// The progress of a takeover.
pub enum TakeStage {
    /// Stepping the target out of any current syscall.
    Nudging,
    /// Placing the program path into the target.
    InjectPath,
    /// Placing the empty argument/environment terminator into the target.
    InjectEmpty,
    /// The next fetched bank is loaded with the prepared `execve`.
    Prepare,
    /// Driving the prepared `execve` through (the no-pause ending).
    Executing,
    /// Finished.
    Finished,
}

/// Replace the target's image: step it out of any syscall, place the
/// program path and an empty terminator into it, and prepare — without
/// executing — an `execve` of that path with empty arguments and
/// environment.  When asked to pause, the prepared call is left for
/// inspection and the driver detaches with a stop; otherwise the call is
/// stepped through and the driver detaches plainly.
pub struct TakeoverRun {
    /// The program path bytes, NUL-terminated.
    pub path_bytes: Vec<u8>,
    pub pause: bool,
    pub pc: u64,
    pub stage: TakeStage,
    pub nudge: StepOutOfSyscall,
    pub inject: InjectBytesRun,
    pub finishing: StepOutOfSyscall,
    pub str_addr: u64,
    pub empty_addr: u64,
    /// The execve bank this machine asked to store, once it has.
    pub prepared0: Ghost<Option<BankView>>,
}

impl TakeoverRun {
    /// The machine's invariant.
    pub open spec fn inv(self) -> bool {
        &&& self.path_bytes@.len() <= u64::MAX
        &&& (self.stage is Nudging ==> !self.nudge.done)
        &&& (self.stage is InjectPath ==> self.inject.inv() && self.inject.stage is Mapping
            && self.inject.pc == self.pc && self.inject.data@ == self.path_bytes@ + seq![0u8])
        &&& (self.stage is InjectEmpty ==> self.inject.inv() && self.inject.stage is Mapping
            && self.inject.pc == self.pc && self.inject.data@ == seq![0u8])
        &&& (self.stage is Executing ==> !self.finishing.done)
    }

    /// Begin a takeover to the NUL-terminated program path; drive by
    /// fetching the bank and calling `on_regs`.
    pub fn start(path_bytes: Vec<u8>, pause: bool, pc: u64) -> (r: TakeoverRun)
        requires
            path_bytes@.len() <= u64::MAX,
        ensures
            r.inv(),
            r.stage is Nudging,
            r.path_bytes@ == path_bytes@,
            r.pause == pause,
            r.pc == pc,
    {
        TakeoverRun {
            path_bytes,
            pause,
            pc,
            stage: TakeStage::Nudging,
            nudge: StepOutOfSyscall::start(),
            inject: InjectBytesRun::start(Vec::new(), pc),
            finishing: StepOutOfSyscall::start(),
            str_addr: 0,
            empty_addr: 0,
            prepared0: Ghost(None),
        }
    }

    /// Consume a fetched bank.
    ///
    /// The prepared bank handed out in [`TakeoverCall::StoreRegsOnly`] is
    /// the reported bank loaded with `execve(path, empty, empty)` at the
    /// trap: the path and terminator addresses are the two mapped
    /// injection addresses, and nothing is executed by the store itself.
    /// The prepare step itself always succeeds; failure is confined to the
    /// two injections (a checked mapping that came back as the failure
    /// value, or a failed byte copy) and to a path too long to terminate.
    pub fn on_regs(&mut self, c: &ProcessController, bank: &RegisterBank) -> (r: Result<
        TakeoverCall,
        ProcError,
    >)
        requires
            old(self).inv(),
            !(old(self).stage is Finished),
            !(old(self).stage is Executing),
            bank@.wf(),
        ensures
            final(self).inv(),
            final(self).pc == old(self).pc,
            final(self).pause == old(self).pause,
            match r {
                Ok(rc) => match rc {
                    TakeoverCall::StoreRegsOnly(b) => {
                        &&& old(self).stage is Prepare
                        &&& b@ == spec_with_syscall(
                            bank@,
                            SYS_EXECVE,
                            seq![old(self).str_addr, old(self).empty_addr, old(self).empty_addr],
                            old(self).pc,
                        )
                        &&& final(self).prepared0@ == Some(b@)
                    },
                    TakeoverCall::Done(_) => false,
                    _ => true,
                },
                Err(e) => final(self).stage is Finished && {
                    ||| (old(self).stage is Nudging && e == ProcError::Protocol
                        && old(self).path_bytes@.len() >= usize::MAX)
                    ||| ((old(self).stage is InjectPath || old(self).stage is InjectEmpty) && (
                    (e == ProcError::SyscallInjection && bank@.pc != old(self).pc
                        && bank@.regs[0] == NO_FD) || e matches ProcError::MemAccess(_)))
                },
            },
            old(self).stage is Prepare ==> (r matches Ok(rc) && rc is StoreRegsOnly),
    {
        match self.stage {
            TakeStage::Nudging => {
                match self.nudge.on_regs(bank) {
                    NudgeCall::StepThenFetchRegs => Ok(TakeoverCall::StepThenFetchRegs),
                    NudgeCall::Done => {
                        if self.path_bytes.len() >= usize::MAX {
                            self.stage = TakeStage::Finished;
                            return Err(ProcError::Protocol);
                        }
                        let data = crate::plans::nul_terminated(self.path_bytes.as_slice());
                        self.stage = TakeStage::InjectPath;
                        self.inject = InjectBytesRun::start(data, self.pc);
                        Ok(TakeoverCall::FetchRegs)
                    },
                }
            },
            TakeStage::InjectPath => {
                let rc = match self.inject.on_regs(c, bank) {
                    Ok(rc) => rc,
                    Err(e) => {
                        self.stage = TakeStage::Finished;
                        return Err(e);
                    },
                };
                match rc {
                    OpCall::StoreRegs(b) => Ok(TakeoverCall::StoreRegs(b)),
                    OpCall::StepThenFetchRegs => Ok(TakeoverCall::StepThenFetchRegs),
                    OpCall::FetchRegs => Ok(TakeoverCall::FetchRegs),
                    OpCall::Done(addr) => {
                        self.str_addr = addr;
                        let mut nul: Vec<u8> = Vec::new();
                        nul.push(0);
                        proof {
                            assert(nul@ =~= seq![0u8]);
                        }
                        self.inject = InjectBytesRun::start(nul, self.pc);
                        self.stage = TakeStage::InjectEmpty;
                        Ok(TakeoverCall::FetchRegs)
                    },
                }
            },
            TakeStage::InjectEmpty => {
                let rc = match self.inject.on_regs(c, bank) {
                    Ok(rc) => rc,
                    Err(e) => {
                        self.stage = TakeStage::Finished;
                        return Err(e);
                    },
                };
                match rc {
                    OpCall::StoreRegs(b) => Ok(TakeoverCall::StoreRegs(b)),
                    OpCall::StepThenFetchRegs => Ok(TakeoverCall::StepThenFetchRegs),
                    OpCall::FetchRegs => Ok(TakeoverCall::FetchRegs),
                    OpCall::Done(addr) => {
                        self.empty_addr = addr;
                        self.stage = TakeStage::Prepare;
                        Ok(TakeoverCall::FetchRegs)
                    },
                }
            },
            TakeStage::Prepare => {
                let call = execve_call(self.str_addr, self.empty_addr, self.empty_addr);
                let b = crate::bank::with_syscall(bank, call.sysno, &call.args, self.pc);
                self.prepared0 = Ghost(Some(b@));
                Ok(TakeoverCall::StoreRegsOnly(b))
            },
            TakeStage::Executing | TakeStage::Finished => {
                proof {
                    assert(false);
                }
                Err(ProcError::Protocol)
            },
        }
    }

    /// The prepared `execve` has been stored.  A pause ends the takeover
    /// here, leaving the call loaded and the target to be detached with a
    /// stop; otherwise the call is now driven through.
    pub fn on_stored(&mut self) -> (r: TakeoverCall)
        requires
            old(self).inv(),
            old(self).stage is Prepare,
        ensures
            final(self).inv(),
            old(self).pause ==> (r matches TakeoverCall::Done(e) && e is DetachStop
                && final(self).stage is Finished),
            !old(self).pause ==> r is StepThenFetchRegs && final(self).stage is Executing,
    {
        if self.pause {
            self.stage = TakeStage::Finished;
            TakeoverCall::Done(TakeoverEnd::DetachStop)
        } else {
            self.finishing = StepOutOfSyscall::start();
            self.stage = TakeStage::Executing;
            TakeoverCall::StepThenFetchRegs
        }
    }

    /// Consume a fetched bank while the prepared call is driven through:
    /// once the program counter leaves the trap, the image is replaced and
    /// the driver detaches plainly.
    pub fn on_exec_regs(&mut self, bank: &RegisterBank) -> (r: TakeoverCall)
        requires
            old(self).inv(),
            old(self).stage is Executing,
            bank@.wf(),
        ensures
            final(self).inv(),
            r matches TakeoverCall::Done(e) ==> e is Detach && final(self).stage is Finished,
    {
        match self.finishing.on_regs(bank) {
            NudgeCall::StepThenFetchRegs => TakeoverCall::StepThenFetchRegs,
            NudgeCall::Done => {
                self.stage = TakeStage::Finished;
                TakeoverCall::Done(TakeoverEnd::Detach)
            },
        }
    }
}

} // verus!

verus! {

use crate::bank::spec_u64s_le;

/// The progress of a rewind.
pub enum RewindStage {
    /// Stepping the target out of any current syscall.
    Nudging,
    /// Placing the original arguments into the target, one by one.
    InjectArgs,
    /// Placing the argument-address array into the target.
    InjectArgv,
    /// Placing the empty-environment terminator into the target.
    InjectEnvp,
    /// Driving the `execve` through.
    Exec,
    /// Finished.
    Finished,
}

/// Re-execute the target from its original arguments: step it out of any
/// syscall, place each NUL-terminated argument into it, place the array
/// of their addresses and an empty-environment terminator, and execute
/// `execve(first argument, argument array, empty environment)` at the
/// trap.
pub struct RewindRun {
    /// The NUL-terminated arguments of the target's command-line record.
    pub args: Vec<Vec<u8>>,
    pub pc: u64,
    pub stage: RewindStage,
    pub idx: usize,
    pub addrs: Vec<u64>,
    pub nudge: StepOutOfSyscall,
    pub inject: InjectBytesRun,
    pub argv_addr: u64,
    pub envp_addr: u64,
    pub execve: SyscallInjection,
}

impl RewindRun {
    /// The machine's invariant: one injected address per placed argument,
    /// and each stage's inner machine carries exactly that stage's bytes.
    pub open spec fn inv(self) -> bool {
        &&& self.args@.len() > 0
        &&& forall|i: int| 0 <= i < self.args@.len() ==> (#[trigger] self.args@[i])@.len()
            <= u64::MAX
        &&& self.idx <= self.args@.len()
        &&& self.addrs@.len() == self.idx
        &&& (self.stage is Nudging ==> !self.nudge.done && self.idx == 0)
        &&& (self.stage is InjectArgs ==> {
            &&& self.idx < self.args@.len()
            &&& self.inject.inv()
            &&& self.inject.stage is Mapping
            &&& self.inject.pc == self.pc
            &&& self.inject.data@ == self.args@[self.idx as int]@
        })
        &&& (self.stage is InjectArgv ==> {
            &&& self.idx == self.args@.len()
            &&& self.inject.inv()
            &&& self.inject.stage is Mapping
            &&& self.inject.pc == self.pc
            &&& self.inject.data@ == spec_u64s_le(self.addrs@)
        })
        &&& (self.stage is InjectEnvp ==> {
            &&& self.idx == self.args@.len()
            &&& self.inject.inv()
            &&& self.inject.stage is Mapping
            &&& self.inject.pc == self.pc
            &&& self.inject.data@ == seq![0u8]
        })
        &&& (self.stage is Exec ==> {
            &&& self.idx == self.args@.len()
            &&& self.execve.inv()
            &&& !(self.execve.state is Finished)
            &&& self.execve.pc == self.pc
            &&& self.execve.sysno == crate::plans::SYS_EXECVE
            &&& self.execve.args@ == seq![self.addrs@[0], self.argv_addr, self.envp_addr]
        })
    }

    /// Begin a rewind over the target's command-line arguments; drive by
    /// fetching the bank and calling `on_regs`.
    pub fn start(args: Vec<Vec<u8>>, pc: u64) -> (r: RewindRun)
        requires
            args@.len() > 0,
            forall|i: int| 0 <= i < args@.len() ==> (#[trigger] args@[i])@.len() <= u64::MAX,
        ensures
            r.inv(),
            r.stage is Nudging,
            r.args@ == args@,
            r.pc == pc,
    {
        RewindRun {
            args,
            pc,
            stage: RewindStage::Nudging,
            idx: 0,
            addrs: Vec::new(),
            nudge: StepOutOfSyscall::start(),
            inject: InjectBytesRun::start(Vec::new(), pc),
            argv_addr: 0,
            envp_addr: 0,
            execve: SyscallInjection::start(0, Vec::new(), pc),
        }
    }

    /// Consume a fetched bank.
    ///
    /// Once every argument, the address array and the environment
    /// terminator are placed, the bank stored for the final call is loaded
    /// with `execve(first argument address, array address, terminator
    /// address)` at the trap; completion means the target's program
    /// counter has left the trap with the new image in place.  The
    /// stepping-out and the final call itself always answer; failure is
    /// confined to the injections: a checked mapping that came back as the
    /// failure value, or a failed byte copy.
    pub fn on_regs(&mut self, c: &ProcessController, bank: &RegisterBank) -> (r: Result<
        OpCall,
        ProcError,
    >)
        requires
            old(self).inv(),
            !(old(self).stage is Finished),
            bank@.wf(),
        ensures
            final(self).inv(),
            final(self).pc == old(self).pc,
            final(self).args@ == old(self).args@,
            match r {
                Ok(rc) => match rc {
                    OpCall::StoreRegs(b) => (old(self).stage is Exec ==> b@ == spec_with_syscall(
                        bank@,
                        crate::plans::SYS_EXECVE,
                        seq![old(self).addrs@[0], old(self).argv_addr, old(self).envp_addr],
                        old(self).pc,
                    )) && !(final(self).stage is Finished),
                    OpCall::Done(_) => old(self).stage is Exec && final(self).stage is Finished,
                    _ => !(final(self).stage is Finished),
                },
                Err(e) => final(self).stage is Finished && (old(self).stage is InjectArgs || old(
                    self,
                ).stage is InjectArgv || old(self).stage is InjectEnvp) && ((e
                    == ProcError::SyscallInjection && bank@.pc != old(self).pc && bank@.regs[0]
                    == NO_FD) || e matches ProcError::MemAccess(_)),
            },
            old(self).stage is Nudging || old(self).stage is Exec ==> r is Ok,
    {
        match self.stage {
            RewindStage::Nudging => {
                match self.nudge.on_regs(bank) {
                    NudgeCall::StepThenFetchRegs => Ok(OpCall::StepThenFetchRegs),
                    NudgeCall::Done => {
                        let data = crate::exchange::copy_bytes(&self.args[0]);
                        self.inject = InjectBytesRun::start(data, self.pc);
                        self.stage = RewindStage::InjectArgs;
                        Ok(OpCall::FetchRegs)
                    },
                }
            },
            RewindStage::InjectArgs => {
                let rc = match self.inject.on_regs(c, bank) {
                    Ok(rc) => rc,
                    Err(e) => {
                        self.stage = RewindStage::Finished;
                        return Err(e);
                    },
                };
                match rc {
                    OpCall::StoreRegs(b) => Ok(OpCall::StoreRegs(b)),
                    OpCall::StepThenFetchRegs => Ok(OpCall::StepThenFetchRegs),
                    OpCall::FetchRegs => Ok(OpCall::FetchRegs),
                    OpCall::Done(addr) => {
                        self.addrs.push(addr);
                        let len = self.args.len();
                        proof {
                            assert(self.idx < len);
                        }
                        self.idx = self.idx + 1;
                        if self.idx < len {
                            let data = crate::exchange::copy_bytes(&self.args[self.idx]);
                            self.inject = InjectBytesRun::start(data, self.pc);
                            Ok(OpCall::FetchRegs)
                        } else {
                            let data = crate::bank::encode_u64s_le(&self.addrs);
                            let n = data.len();
                            proof {
                                assert(data@.len() == n);
                            }
                            self.inject = InjectBytesRun::start(data, self.pc);
                            self.stage = RewindStage::InjectArgv;
                            Ok(OpCall::FetchRegs)
                        }
                    },
                }
            },
            RewindStage::InjectArgv => {
                let rc = match self.inject.on_regs(c, bank) {
                    Ok(rc) => rc,
                    Err(e) => {
                        self.stage = RewindStage::Finished;
                        return Err(e);
                    },
                };
                match rc {
                    OpCall::StoreRegs(b) => Ok(OpCall::StoreRegs(b)),
                    OpCall::StepThenFetchRegs => Ok(OpCall::StepThenFetchRegs),
                    OpCall::FetchRegs => Ok(OpCall::FetchRegs),
                    OpCall::Done(addr) => {
                        self.argv_addr = addr;
                        let mut nul: Vec<u8> = Vec::new();
                        nul.push(0);
                        proof {
                            assert(nul@ =~= seq![0u8]);
                        }
                        self.inject = InjectBytesRun::start(nul, self.pc);
                        self.stage = RewindStage::InjectEnvp;
                        Ok(OpCall::FetchRegs)
                    },
                }
            },
            RewindStage::InjectEnvp => {
                let rc = match self.inject.on_regs(c, bank) {
                    Ok(rc) => rc,
                    Err(e) => {
                        self.stage = RewindStage::Finished;
                        return Err(e);
                    },
                };
                match rc {
                    OpCall::StoreRegs(b) => Ok(OpCall::StoreRegs(b)),
                    OpCall::StepThenFetchRegs => Ok(OpCall::StepThenFetchRegs),
                    OpCall::FetchRegs => Ok(OpCall::FetchRegs),
                    OpCall::Done(addr) => {
                        self.envp_addr = addr;
                        let mut call_args: Vec<u64> = Vec::new();
                        call_args.push(self.addrs[0]);
                        call_args.push(self.argv_addr);
                        call_args.push(addr);
                        proof {
                            assert(call_args@ =~= seq![
                                self.addrs@[0],
                                self.argv_addr,
                                self.envp_addr,
                            ]);
                        }
                        self.execve = SyscallInjection::start(
                            crate::plans::SYS_EXECVE,
                            call_args,
                            self.pc,
                        );
                        self.stage = RewindStage::Exec;
                        Ok(OpCall::FetchRegs)
                    },
                }
            },
            RewindStage::Exec => {
                match self.execve.on_regs(bank) {
                    DriverCall::StoreRegs(b) => Ok(OpCall::StoreRegs(b)),
                    DriverCall::StepThenFetchRegs => Ok(OpCall::StepThenFetchRegs),
                    DriverCall::Done(v) => {
                        self.stage = RewindStage::Finished;
                        Ok(OpCall::Done(v))
                    },
                }
            },
            RewindStage::Finished => {
                proof {
                    assert(false);
                }
                Err(ProcError::Protocol)
            },
        }
    }
}

} // verus!

verus! {

use crate::bank::{svc_pattern, svc_fill_byte};
use crate::plans::{PROT_EXEC, mmap_anon_call as mmap_call_anon};

/// The progress of mapping the scratch pad.
pub enum PadStage {
    /// The page is being mapped.
    Mapping,
    /// The pad is mapped and filled.
    Finished,
}

/// Map the scratch pad: a readable+writable+executable page at the chosen
/// address — one page above the target's highest mapping — filled with
/// repeated trap instructions, so that any program counter inside it makes
/// the target issue a controllable syscall.
pub struct ScratchPadRun {
    pub addr: u64,
    pub pc: u64,
    pub runner: PlanRunner,
    pub stage: PadStage,
    /// The bytes written into the pad, once they have been.
    pub filled: Ghost<Option<Seq<u8>>>,
}

impl ScratchPadRun {
    /// The machine's invariant: the single planned call maps one page at
    /// the pad address with read, write and execute protection; once
    /// filled, the pad bytes are trap instructions in every aligned slot.
    pub open spec fn inv(self) -> bool {
        &&& self.runner.inv()
        &&& self.runner.pc == self.pc
        &&& self.runner.calls@.len() == 1
        &&& self.runner.calls@[0].sysno == SYS_MMAP
        &&& self.runner.calls@[0].args@ == seq![
            self.addr,
            4096u64,
            (PROT_READ | PROT_WRITE | PROT_EXEC) as u64,
            (MAP_PRIVATE | MAP_ANONYMOUS) as u64,
            NO_FD,
            0u64,
        ]
        &&& self.runner.calls@[0].expect_mapped
        &&& (self.stage is Mapping ==> !(self.runner.phase is Complete) && !(self.runner.phase
            is Failed) && self.filled@ is None)
        &&& (self.filled@ matches Some(bytes) ==> bytes.len() == 4096 && forall|j: int|
            0 <= j < bytes.len() ==> bytes[j] == svc_fill_byte(j))
    }

    /// Begin mapping the pad at `addr`, injecting through the trap at
    /// `pc`; drive by fetching the bank and calling `on_regs`.
    pub fn start(addr: u64, pc: u64) -> (r: ScratchPadRun)
        ensures
            r.inv(),
            r.stage is Mapping,
            r.addr == addr,
            r.pc == pc,
    {
        let call = mmap_call_anon(addr, 4096, PROT_READ | PROT_WRITE | PROT_EXEC);
        let mut calls: Vec<SyscallSpec> = Vec::new();
        calls.push(call);
        let runner = PlanRunner::start(calls, pc);
        ScratchPadRun { addr, pc, runner, stage: PadStage::Mapping, filled: Ghost(None) }
    }

    /// Consume a fetched bank.  The machine's answer is fixed by its state
    /// and the bank: a fresh run always stores the bank loaded with the
    /// checked page mapping at the pad address; a counter still at the trap
    /// always steps; a counter past the trap delivers the mapping result —
    /// the failure value aborts with a syscall-injection error, and
    /// otherwise the pad is filled with 1024 trap instructions (the 4 bytes
    /// at every aligned offset below the page size are the trap's
    /// encoding), the one step that can also fail, with a memory-access
    /// error.
    pub fn on_regs(&mut self, c: &ProcessController, bank: &RegisterBank) -> (r: Result<
        OpCall,
        ProcError,
    >)
        requires
            old(self).inv(),
            old(self).stage is Mapping,
            bank@.wf(),
        ensures
            final(self).inv(),
            final(self).addr == old(self).addr,
            final(self).pc == old(self).pc,
            match r {
                Ok(rc) => match rc {
                    OpCall::Done(a) => a == old(self).addr && final(self).stage is Finished
                        && final(self).filled@ is Some,
                    _ => final(self).stage is Mapping,
                },
                Err(_) => !(final(self).stage is Mapping),
            },
            old(self).runner.phase is NeedFetch ==> (r matches Ok(rc) && rc is StoreRegs),
            old(self).runner.phase is Driving && bank@.pc == old(self).pc ==> r == Ok::<
                OpCall,
                ProcError,
            >(OpCall::StepThenFetchRegs),
            old(self).runner.phase is Driving && bank@.pc != old(self).pc && bank@.regs[0]
                == NO_FD ==> r == Err::<OpCall, ProcError>(ProcError::SyscallInjection),
            old(self).runner.phase is Driving && bank@.pc != old(self).pc && bank@.regs[0]
                != NO_FD ==> (r == Ok::<OpCall, ProcError>(OpCall::Done(old(self).addr)) || (
            r matches Err(e) && e matches ProcError::MemAccess(_))),
    {
        let rc = match self.runner.on_regs(bank) {
            Ok(rc) => rc,
            Err(e) => {
                self.stage = PadStage::Finished;
                return Err(e);
            },
        };
        match rc {
            RunnerCall::StoreRegs(b) => Ok(OpCall::StoreRegs(b)),
            RunnerCall::StepThenFetchRegs => Ok(OpCall::StepThenFetchRegs),
            RunnerCall::FetchRegs => {
                proof {
                    assert(false);
                }
                Err(ProcError::SyscallInjection)
            },
            RunnerCall::Complete => {
                let pattern = svc_pattern(1024);
                let ghost pv = pattern@;
                match c.inject_bytes_at_addr(pattern.as_slice(), self.addr) {
                    Ok(_) => {
                        self.stage = PadStage::Finished;
                        self.filled = Ghost(Some(pv));
                        Ok(OpCall::Done(self.addr))
                    },
                    Err(e) => {
                        self.stage = PadStage::Finished;
                        return Err(e);
                    },
                }
            },
        }
    }
}

} // verus!

//! The syscall-injection protocol, as verified state machines.
//!
//! Register-set transfers need a processor-specific buffer handoff that the
//! library does not perform itself; instead each machine here tells its
//! driver exactly which transfer to make next, and consumes the fetched
//! bank through `on_regs`.  Everything decided about those banks — what is
//! written into the target, when the injected call is complete, what its
//! result is — is verified, for every sequence of events the driver could
//! ever report.
//!
//! The injection invariant: between storing the prepared bank and
//! completion, the target is single-stepped until its program counter
//! leaves the trap address; the bank written holds the syscall number in
//! register 8, the arguments in registers 0 onward, and the program
//! counter at the trap.

use vstd::prelude::*;

use crate::bank::{RegisterBank, BankView, spec_with_syscall, with_syscall};
use crate::errors::ProcError;
use crate::plans::{SyscallSpec, NO_FD};

verus! {

/// What the driver must do next for one injected syscall.
pub enum DriverCall {
    /// Write the bank into the target's register set, single-step the
    /// target, then fetch its register set and report it through
    /// `on_regs`.
    StoreRegs(RegisterBank),
    /// Single-step the target, then fetch its register set and report it
    /// through `on_regs`.
    StepThenFetchRegs,
    /// The injected syscall completed; the value is its result register.
    Done(u64),
}

/// The progress of one injected syscall.
pub enum InjState {
    /// No bank stored yet: the next reported bank is loaded with the call.
    Preparing,
    /// The prepared bank is in the target; stepping until the program
    /// counter leaves the trap.
    Stepping,
    /// The result has been delivered.
    Finished,
}

/// A bank loaded for the call `(sysno, args, pc)`: the syscall number in
/// register 8, the arguments in registers 0 onward, the program counter at
/// the trap.
pub open spec fn prepared_bank(b: BankView, sysno: u64, args: Seq<u64>, pc: u64) -> bool {
    &&& b.wf()
    &&& b.pc == pc
    &&& b.regs[8] == sysno
    &&& forall|i: int| 0 <= i < args.len() ==> b.regs[i] == args[i]
}

/// Copy a vector of words.
pub fn copy_u64s(v: &Vec<u64>) -> (r: Vec<u64>)
    ensures
        r@ == v@,
{
    let mut r: Vec<u64> = Vec::new();
    let mut i: usize = 0;
    while i < v.len()
        invariant
            i <= v@.len(),
            r@ =~= v@.take(i as int),
        decreases v@.len() - i,
    {
        r.push(v[i]);
        i = i + 1;
    }
    proof {
        assert(r@ =~= v@);
    }
    r
}

/// One injected syscall: prepare the registers at a trap address, then
/// step until the program counter moves, then read the result register.
pub struct SyscallInjection {
    pub sysno: u64,
    pub args: Vec<u64>,
    pub pc: u64,
    pub state: InjState,
    /// The bank this machine stored, once it has.
    pub written: Ghost<Option<BankView>>,
}

impl SyscallInjection {
    /// The machine's invariant: the call fits the register file, and once a
    /// bank has been stored it was exactly the prepared one.
    pub open spec fn inv(self) -> bool {
        &&& self.args@.len() <= 6
        &&& !(self.state is Preparing) ==> (self.written@ matches Some(b) && prepared_bank(
            b,
            self.sysno,
            self.args@,
            self.pc,
        ))
    }

    /// Begin an injection of `sysno(args)` with the program counter to be
    /// parked at the trap instruction `pc`.  Drive it by fetching the
    /// target's bank and calling `on_regs`, then obeying each returned
    /// call.
    pub fn start(sysno: u64, args: Vec<u64>, pc: u64) -> (r: SyscallInjection)
        requires
            args@.len() <= 6,
        ensures
            r.inv(),
            r.state is Preparing,
            r.sysno == sysno && r.args@ == args@ && r.pc == pc,
    {
        SyscallInjection { sysno, args, pc, state: InjState::Preparing, written: Ghost(None) }
    }

    /// Consume a fetched register bank.
    ///
    /// On the first bank this returns the store of the prepared bank: the
    /// same bank with the syscall loaded and the program counter at the
    /// trap, everything else unchanged.  Afterwards it keeps stepping while
    /// the program counter still sits at the trap; the first bank past the
    /// trap finishes the call, whose result is that bank's register 0 —
    /// read only after the counter has left the trap address.
    pub fn on_regs(&mut self, bank: &RegisterBank) -> (r: DriverCall)
        requires
            old(self).inv(),
            !(old(self).state is Finished),
            bank@.wf(),
        ensures
            final(self).inv(),
            final(self).sysno == old(self).sysno,
            final(self).args@ == old(self).args@,
            final(self).pc == old(self).pc,
            old(self).state is Preparing ==> (r matches DriverCall::StoreRegs(b) && b@
                == spec_with_syscall(bank@, old(self).sysno, old(self).args@, old(self).pc)
                && final(self).written@ == Some(b@) && final(self).state is Stepping),
            old(self).state is Stepping ==> final(self).written@ == old(self).written@ && (if (
            bank@.pc == old(self).pc) {
                r is StepThenFetchRegs && final(self).state is Stepping
            } else {
                r == DriverCall::Done(bank@.regs[0]) && final(self).state is Finished
            }),
    {
        match self.state {
            InjState::Preparing => {
                let b = with_syscall(bank, self.sysno, &self.args, self.pc);
                self.state = InjState::Stepping;
                self.written = Ghost(Some(b@));
                DriverCall::StoreRegs(b)
            },
            InjState::Stepping => {
                if bank.pc == self.pc {
                    DriverCall::StepThenFetchRegs
                } else {
                    self.state = InjState::Finished;
                    DriverCall::Done(bank.regs[0])
                }
            },
            InjState::Finished => DriverCall::Done(bank.regs[0]),
        }
    }
}

/// What the driver must do next for a whole plan of injected syscalls.
pub enum RunnerCall {
    /// As in [`DriverCall::StoreRegs`].
    StoreRegs(RegisterBank),
    /// As in [`DriverCall::StepThenFetchRegs`].
    StepThenFetchRegs,
    /// Fetch the (already stopped) target's register set and report it
    /// through `on_regs`.
    FetchRegs,
    /// Every call of the plan has completed.
    Complete,
}

/// The progress of a plan.
pub enum RunPhase {
    /// The next call needs a fresh bank to prepare from.
    NeedFetch,
    /// The current call is in flight.
    Driving,
    /// All calls completed.
    Complete,
    /// A checked call failed; the run is abandoned.
    Failed,
}

/// Results so far respect each call's check: a call that expects a fresh
/// mapping never yielded the failure value.
pub open spec fn results_ok(calls: Seq<SyscallSpec>, results: Seq<u64>) -> bool {
    forall|i: int|
        0 <= i < results.len() ==> ((#[trigger] calls[i]).expect_mapped ==> results[i] != NO_FD)
}

/// Run a fixed plan of syscalls, all injected at the same trap address,
/// each through its own [`SyscallInjection`], collecting the result
/// registers.
pub struct PlanRunner {
    pub calls: Vec<SyscallSpec>,
    pub pc: u64,
    pub idx: usize,
    pub results: Vec<u64>,
    pub inner: SyscallInjection,
    pub phase: RunPhase,
}

impl PlanRunner {
    /// The runner's invariant: one result per completed call, every checked
    /// result valid, and the in-flight injection is exactly the current
    /// call at the shared trap address.
    pub open spec fn inv(self) -> bool {
        &&& forall|i: int| 0 <= i < self.calls@.len() ==> (#[trigger] self.calls@[i]).wf()
        &&& self.idx <= self.calls@.len()
        &&& !(self.phase is Failed) ==> {
            &&& self.results@.len() == self.idx
            &&& results_ok(self.calls@, self.results@)
        }
        &&& (self.phase is NeedFetch ==> self.idx < self.calls@.len())
        &&& (self.phase is Driving ==> {
            &&& self.idx < self.calls@.len()
            &&& self.inner.inv()
            &&& self.inner.state is Stepping
            &&& self.inner.sysno == self.calls@[self.idx as int].sysno
            &&& self.inner.args@ == self.calls@[self.idx as int].args@
            &&& self.inner.pc == self.pc
        })
        &&& (self.phase is Complete ==> self.idx == self.calls@.len())
    }

    /// Begin a run.  Drive it by fetching the target's bank and calling
    /// `on_regs`, then obeying each returned call.
    pub fn start(calls: Vec<SyscallSpec>, pc: u64) -> (r: PlanRunner)
        requires
            calls@.len() > 0,
            forall|i: int| 0 <= i < calls@.len() ==> (#[trigger] calls@[i]).wf(),
        ensures
            r.inv(),
            r.phase is NeedFetch,
            r.calls@ == calls@,
            r.pc == pc,
            r.results@.len() == 0,
    {
        let inner = SyscallInjection::start(0, Vec::new(), pc);
        PlanRunner { calls, pc, idx: 0, results: Vec::new(), inner, phase: RunPhase::NeedFetch }
    }

    /// Whether every call has completed.
    pub fn is_complete(&self) -> (r: bool)
        ensures
            r == (self.phase is Complete),
    {
        matches!(self.phase, RunPhase::Complete)
    }

    /// Borrow the collected result registers, one per completed call.
    pub fn results(&self) -> (r: &Vec<u64>)
        ensures
            r == &self.results,
    {
        &self.results
    }

    /// Consume a fetched register bank and decide the next transfer.
    ///
    /// Every bank this asks the driver to store is the reported bank with
    /// the current call loaded: its number in register 8, its arguments in
    /// registers 0 onward, the program counter at the shared trap address.
    /// The runner makes no kernel call of its own, so its answer is fixed
    /// by its state and the reported bank: a fresh call is always stored;
    /// a counter still at the trap always steps; a counter past the trap
    /// always completes the call with that bank's register 0 — and fails,
    /// with a syscall-injection error, exactly when the call was marked
    /// `expect_mapped` and that register holds the failure value.
    pub fn on_regs(&mut self, bank: &RegisterBank) -> (r: Result<RunnerCall, ProcError>)
        requires
            old(self).inv(),
            old(self).phase is NeedFetch || old(self).phase is Driving,
            bank@.wf(),
        ensures
            final(self).inv(),
            final(self).calls@ == old(self).calls@,
            final(self).pc == old(self).pc,
            match r {
                Ok(rc) => match rc {
                    RunnerCall::StoreRegs(b) => {
                        &&& final(self).phase is Driving
                        &&& final(self).idx == old(self).idx
                        &&& b@ == spec_with_syscall(
                            bank@,
                            old(self).calls@[old(self).idx as int].sysno,
                            old(self).calls@[old(self).idx as int].args@,
                            old(self).pc,
                        )
                    },
                    RunnerCall::StepThenFetchRegs => final(self).phase is Driving
                        && final(self).idx == old(self).idx,
                    RunnerCall::FetchRegs => final(self).phase is NeedFetch && final(self).idx
                        == old(self).idx + 1,
                    RunnerCall::Complete => {
                        &&& final(self).phase is Complete
                        &&& final(self).idx == old(self).calls@.len()
                        &&& final(self).results@.len() == old(self).calls@.len()
                        &&& results_ok(final(self).calls@, final(self).results@)
                    },
                },
                Err(e) => e == ProcError::SyscallInjection && final(self).phase is Failed,
            },
            old(self).phase is NeedFetch ==> (r matches Ok(rc2) && rc2 is StoreRegs
                && final(self).results@ == old(self).results@),
            old(self).phase is Driving && bank@.pc == old(self).pc ==> r == Ok::<
                RunnerCall,
                ProcError,
            >(RunnerCall::StepThenFetchRegs) && final(self).results@ == old(self).results@,
            old(self).phase is Driving && bank@.pc != old(self).pc
                && old(self).calls@[old(self).idx as int].expect_mapped && bank@.regs[0] == NO_FD
                ==> r == Err::<RunnerCall, ProcError>(ProcError::SyscallInjection),
            old(self).phase is Driving && bank@.pc != old(self).pc
                && !(old(self).calls@[old(self).idx as int].expect_mapped && bank@.regs[0]
                == NO_FD) ==> {
                &&& final(self).results@ == old(self).results@.push(bank@.regs[0])
                &&& (old(self).idx + 1 < old(self).calls@.len() ==> r == Ok::<
                    RunnerCall,
                    ProcError,
                >(RunnerCall::FetchRegs))
                &&& (old(self).idx + 1 == old(self).calls@.len() ==> r == Ok::<
                    RunnerCall,
                    ProcError,
                >(RunnerCall::Complete))
            },
    {
        match self.phase {
            RunPhase::NeedFetch => {
                let spec_call = &self.calls[self.idx];
                let args = copy_u64s(&spec_call.args);
                let mut inner = SyscallInjection::start(spec_call.sysno, args, self.pc);
                let call = inner.on_regs(bank);
                self.inner = inner;
                self.phase = RunPhase::Driving;
                match call {
                    DriverCall::StoreRegs(b) => Ok(RunnerCall::StoreRegs(b)),
                    _ => {
                        proof {
                            assert(false);
                        }
                        Err(ProcError::SyscallInjection)
                    },
                }
            },
            RunPhase::Driving => {
                let call = self.inner.on_regs(bank);
                match call {
                    DriverCall::StepThenFetchRegs => Ok(RunnerCall::StepThenFetchRegs),
                    DriverCall::Done(v) => {
                        if self.calls[self.idx].expect_mapped && v == NO_FD {
                            self.phase = RunPhase::Failed;
                            return Err(ProcError::SyscallInjection);
                        }
                        self.results.push(v);
                        let len = self.calls.len();
                        proof {
                            assert(self.idx < len);
                        }
                        self.idx = self.idx + 1;
                        if self.idx == len {
                            self.phase = RunPhase::Complete;
                            Ok(RunnerCall::Complete)
                        } else {
                            self.phase = RunPhase::NeedFetch;
                            Ok(RunnerCall::FetchRegs)
                        }
                    },
                    DriverCall::StoreRegs(_) => {
                        proof {
                            assert(false);
                        }
                        Err(ProcError::SyscallInjection)
                    },
                }
            },
            RunPhase::Complete | RunPhase::Failed => {
                proof {
                    assert(false);
                }
                Err(ProcError::SyscallInjection)
            },
        }
    }
}

/// Step the target out of a syscall: single-step until the program counter
/// moves away from where it started.  This resolves syscalls whose return
/// is imminent; a target blocked indefinitely keeps the driver stepping —
/// the known weakness of the underlying design.
pub struct StepOutOfSyscall {
    /// The program counter first observed, once one has been.
    pub initial: Option<u64>,
    pub done: bool,
}

/// What the driver must do next while stepping out of a syscall.
pub enum NudgeCall {
    /// Single-step the target, then fetch its register set and report it
    /// through `on_regs`.
    StepThenFetchRegs,
    /// The program counter has moved; the target is out of the syscall.
    Done,
}

impl StepOutOfSyscall {
    /// Begin; drive by fetching the bank and calling `on_regs`.
    pub fn start() -> (r: StepOutOfSyscall)
        ensures
            r.initial is None,
            !r.done,
    {
        StepOutOfSyscall { initial: None, done: false }
    }

    /// Consume a fetched bank: the first fixes the starting counter; each
    /// later one finishes exactly when its counter differs from it.
    pub fn on_regs(&mut self, bank: &RegisterBank) -> (r: NudgeCall)
        requires
            !old(self).done,
        ensures
            old(self).initial is None ==> r is StepThenFetchRegs && final(self).initial == Some(
                bank@.pc,
            ) && !final(self).done,
            old(self).initial matches Some(p0) ==> {
                &&& final(self).initial == old(self).initial
                &&& (bank@.pc == p0 ==> r is StepThenFetchRegs && !final(self).done)
                &&& (bank@.pc != p0 ==> r is Done && final(self).done)
            },
    {
        match self.initial {
            None => {
                self.initial = Some(bank.pc);
                NudgeCall::StepThenFetchRegs
            },
            Some(p0) => {
                if bank.pc == p0 {
                    NudgeCall::StepThenFetchRegs
                } else {
                    self.done = true;
                    NudgeCall::Done
                }
            },
        }
    }
}

} // verus!

verus! {

/// Copy a byte vector.
pub fn copy_bytes(v: &Vec<u8>) -> (r: Vec<u8>)
    ensures
        r@ == v@,
{
    let mut r: Vec<u8> = Vec::new();
    let mut i: usize = 0;
    while i < v.len()
        invariant
            i <= v@.len(),
            r@ =~= v@.take(i as int),
        decreases v@.len() - i,
    {
        r.push(v[i]);
        i = i + 1;
    }
    proof {
        assert(r@ =~= v@);
    }
    r
}

} // verus!

verus! {

/// Probe whether the target sits inside a syscall: single-step once and
/// see whether the program counter moved.  A counter that stayed put means
/// the step was swallowed by a pending syscall.
pub struct InSyscallProbe {
    /// The program counter first observed, once one has been.
    pub initial: Option<u64>,
}

/// What the driver of the probe must do next.
pub enum ProbeCall {
    /// Single-step the target, then fetch its register set and report it
    /// through `on_regs`.
    StepThenFetchRegs,
    /// The probe is decided: the target is inside a syscall exactly when
    /// the value is true.
    Decided(bool),
}

impl InSyscallProbe {
    /// Begin; drive by fetching the bank and calling `on_regs`.
    pub fn start() -> (r: InSyscallProbe)
        ensures
            r.initial is None,
    {
        InSyscallProbe { initial: None }
    }

    /// Consume a fetched bank: the first fixes the starting counter; the
    /// second decides — the target was inside a syscall exactly when the
    /// counter did not move over the step.
    pub fn on_regs(&mut self, bank: &RegisterBank) -> (r: ProbeCall)
        ensures
            old(self).initial is None ==> r is StepThenFetchRegs && final(self).initial == Some(
                bank@.pc,
            ),
            old(self).initial matches Some(p0) ==> r == ProbeCall::Decided(bank@.pc == p0)
                && final(self).initial == old(self).initial,
    {
        match self.initial {
            None => {
                self.initial = Some(bank.pc);
                ProbeCall::StepThenFetchRegs
            },
            Some(p0) => ProbeCall::Decided(bank.pc == p0),
        }
    }
}

} // verus!

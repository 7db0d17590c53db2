//! The image-transfer server's syscall engine: the code-patching variant.
//!
//! Unlike the scratch-pad approach, this engine overwrites the word at the
//! target's current program counter with the trap instruction,
//! single-steps once, and then restores both the original word and the
//! original register bank, preserving the caller's instruction stream.
//! It requires the page at the program counter to be present and writable
//! through the kernel's debug write primitive.

use vstd::prelude::*;

use crate::bank::{RegisterBank, BankView, spec_with_syscall, with_syscall, SVC_WORD};
use crate::errors::ProcError;

verus! {

/// What the driver of the patch engine must do next.
pub enum PatchCall {
    /// Fetch the target's register set and report it through `on_regs`.
    FetchRegs,
    /// Read the word at the address through the debug read primitive and
    /// report it through `on_word`.
    PeekText(u64),
    /// Write the word at the address through the debug write primitive and
    /// report back through `on_poked`.
    PokeText(u64, u64),
    /// Write the bank into the target's register set and report back
    /// through `on_stored`.
    StoreRegs(RegisterBank),
    /// Single-step the target, wait for it to stop, then fetch its
    /// register set and report it through `on_regs`.
    StepThenFetchRegs,
    /// The injected syscall completed; the value is its result register.
    Done(u64),
}

/// The engine's progress.
pub enum PatchState {
    /// Waiting for the initial register fetch.
    Start,
    /// Waiting for the original word under the program counter.
    AwaitWord,
    /// Waiting for the trap word to be poked in.
    AwaitTrapPoke,
    /// Waiting for the prepared bank to be stored.
    AwaitPreparedStore,
    /// Waiting for the post-step register fetch.
    AwaitResult,
    /// Waiting for the original word to be poked back.
    AwaitRestorePoke,
    /// Waiting for the original bank to be stored back.
    AwaitRestoreStore,
    /// The result has been delivered.
    Finished,
}

/// One injected syscall through code patching.
///
/// Protocol: fetch and save the bank; peek and save the word under its
/// program counter; poke the trap instruction there; store the bank with
/// the call loaded and the program counter unchanged; single-step; read
/// the result register; poke the original word back; store the original
/// bank back — the target's registers and code after the call equal those
/// before it, except for the syscall's own effect.
pub struct PatchSyscall {
    pub sysno: u64,
    pub args: Vec<u64>,
    pub state: PatchState,
    pub saved: Option<RegisterBank>,
    /// The bank observed at the start.
    pub saved0: Ghost<Option<BankView>>,
    pub old_word: u64,
    /// The word observed under the program counter.
    pub word0: Ghost<Option<u64>>,
    pub result: u64,
}

impl PatchSyscall {
    /// The engine's invariant.
    pub open spec fn inv(self) -> bool {
        &&& self.args@.len() <= 6
        &&& !(self.state is Start) ==> (self.saved matches Some(b) && b@.wf() && self.saved0@
            == Some(b@))
        &&& !(self.state is Start || self.state is AwaitWord) ==> self.word0@ == Some(
            self.old_word,
        )
    }

    /// Begin an injection of `sysno(args)`; the first driver call is the
    /// register fetch.
    pub fn start(sysno: u64, args: Vec<u64>) -> (r: (PatchSyscall, PatchCall))
        requires
            args@.len() <= 6,
        ensures
            r.0.inv(),
            r.0.state is Start,
            r.0.sysno == sysno && r.0.args@ == args@,
            r.1 is FetchRegs,
    {
        let m = PatchSyscall {
            sysno,
            args,
            state: PatchState::Start,
            saved: None,
            saved0: Ghost(None),
            old_word: 0,
            word0: Ghost(None),
            result: 0,
        };
        (m, PatchCall::FetchRegs)
    }

    /// Consume a fetched register bank.
    ///
    /// The first bank is saved and its program counter probed; the bank
    /// fetched after the single step delivers the result register and
    /// begins restoration.
    pub fn on_regs(&mut self, bank: &RegisterBank) -> (r: PatchCall)
        requires
            old(self).inv(),
            old(self).state is Start || old(self).state is AwaitResult,
            bank@.wf(),
        ensures
            final(self).inv(),
            final(self).sysno == old(self).sysno && final(self).args@ == old(self).args@,
            old(self).state is Start ==> {
                &&& r == PatchCall::PeekText(bank@.pc)
                &&& final(self).state is AwaitWord
                &&& final(self).saved0@ == Some(bank@)
            },
            old(self).state is AwaitResult ==> {
                &&& r == PatchCall::PokeText(old(self).saved0@.unwrap().pc, old(self).old_word)
                &&& final(self).state is AwaitRestorePoke
                &&& final(self).result == bank@.regs[0]
                &&& final(self).saved0@ == old(self).saved0@
            },
    {
        match self.state {
            PatchState::Start => {
                self.saved = Some(bank.duplicate());
                self.saved0 = Ghost(Some(bank@));
                self.state = PatchState::AwaitWord;
                PatchCall::PeekText(bank.pc)
            },
            PatchState::AwaitResult => {
                self.result = bank.regs[0];
                self.state = PatchState::AwaitRestorePoke;
                let pc = match &self.saved {
                    Some(b) => b.pc,
                    None => 0,
                };
                PatchCall::PokeText(pc, self.old_word)
            },
            _ => PatchCall::Done(self.result),
        }
    }

    /// Consume the word read from under the saved program counter: save it
    /// and ask for the trap instruction to be written there.
    pub fn on_word(&mut self, word: u64) -> (r: PatchCall)
        requires
            old(self).inv(),
            old(self).state is AwaitWord,
        ensures
            final(self).inv(),
            final(self).sysno == old(self).sysno && final(self).args@ == old(self).args@,
            r == PatchCall::PokeText(old(self).saved0@.unwrap().pc, SVC_WORD as u64),
            final(self).state is AwaitTrapPoke,
            final(self).word0@ == Some(word),
            final(self).saved0@ == old(self).saved0@,
    {
        self.old_word = word;
        self.word0 = Ghost(Some(word));
        self.state = PatchState::AwaitTrapPoke;
        let pc = match &self.saved {
            Some(b) => b.pc,
            None => 0,
        };
        PatchCall::PokeText(pc, SVC_WORD as u64)
    }

    /// A poke completed.  After the trap went in, the prepared bank — the
    /// saved bank with the call loaded and the program counter unchanged —
    /// is stored; after the original word went back, the original bank is
    /// stored back.
    pub fn on_poked(&mut self) -> (r: PatchCall)
        requires
            old(self).inv(),
            old(self).state is AwaitTrapPoke || old(self).state is AwaitRestorePoke,
        ensures
            final(self).inv(),
            final(self).sysno == old(self).sysno && final(self).args@ == old(self).args@,
            old(self).state is AwaitTrapPoke ==> {
                &&& (r matches PatchCall::StoreRegs(b) && b@ == spec_with_syscall(
                    old(self).saved0@.unwrap(),
                    old(self).sysno,
                    old(self).args@,
                    old(self).saved0@.unwrap().pc,
                ))
                &&& final(self).state is AwaitPreparedStore
                &&& final(self).saved0@ == old(self).saved0@
                &&& final(self).word0@ == old(self).word0@
            },
            old(self).state is AwaitRestorePoke ==> {
                &&& (r matches PatchCall::StoreRegs(b) && Some(b@) == old(self).saved0@)
                &&& final(self).state is AwaitRestoreStore
                &&& final(self).saved0@ == old(self).saved0@
            },
    {
        match self.state {
            PatchState::AwaitTrapPoke => {
                let prepared = match &self.saved {
                    Some(b) => with_syscall(b, self.sysno, &self.args, b.pc),
                    None => {
                        proof {
                            assert(false);
                        }
                        RegisterBank::zeroed()
                    },
                };
                self.state = PatchState::AwaitPreparedStore;
                PatchCall::StoreRegs(prepared)
            },
            PatchState::AwaitRestorePoke => {
                let saved = match &self.saved {
                    Some(b) => b.duplicate(),
                    None => {
                        proof {
                            assert(false);
                        }
                        RegisterBank::zeroed()
                    },
                };
                self.state = PatchState::AwaitRestoreStore;
                PatchCall::StoreRegs(saved)
            },
            _ => {
                proof {
                    assert(false);
                }
                PatchCall::Done(self.result)
            },
        }
    }

    /// A register store completed.  After the prepared bank went in, the
    /// target is stepped through the trap; after the original bank went
    /// back, the call is complete and its result delivered.
    pub fn on_stored(&mut self) -> (r: PatchCall)
        requires
            old(self).inv(),
            old(self).state is AwaitPreparedStore || old(self).state is AwaitRestoreStore,
        ensures
            final(self).inv(),
            final(self).sysno == old(self).sysno && final(self).args@ == old(self).args@,
            old(self).state is AwaitPreparedStore ==> r is StepThenFetchRegs && final(self).state
                is AwaitResult && final(self).saved0@ == old(self).saved0@ && final(self).word0@
                == old(self).word0@,
            old(self).state is AwaitRestoreStore ==> r == PatchCall::Done(old(self).result)
                && final(self).state is Finished,
    {
        match self.state {
            PatchState::AwaitPreparedStore => {
                self.state = PatchState::AwaitResult;
                PatchCall::StepThenFetchRegs
            },
            PatchState::AwaitRestoreStore => {
                self.state = PatchState::Finished;
                PatchCall::Done(self.result)
            },
            _ => {
                proof {
                    assert(false);
                }
                PatchCall::Done(self.result)
            },
        }
    }
}

} // verus!

//! Process snapshots: a full register bank plus every memory region with
//! its payload, sufficient to reconstruct the image in another process.
//!
//! The snapshot invariant: every region whose readable flag is set and
//! whose label is not the `[vvar]` sentinel carries a payload of exactly
//! its size; every other region carries an empty payload.  The `[vvar]`
//! mapping cannot be read through the kernel's per-process memory
//! interface and is recreated by the kernel after a thaw, so it is never
//! populated, whatever its permission bits say.

use vstd::prelude::*;

use crate::bank::RegisterBank;
use crate::controller::ProcessController;
use crate::errors::ProcError;
use crate::maps::MemoryMap;

verus! {

/// A serializable record of a target's registers and per-region memory
/// contents.
pub struct ProcessState {
    pub memory_maps: Vec<MemoryMap>,
    pub regs: Vec<u64>,
    pub sp: u64,
    pub pc: u64,
    pub pstate: u64,
}

/// How many regions a populating pass left unfilled: the eligible regions
/// whose payload does not fill them.
pub open spec fn count_unfilled(s: Seq<MemoryMap>) -> int
    decreases s.len(),
{
    if s.len() == 0 {
        0
    } else {
        count_unfilled(s.drop_last()) + (if s.last().spec_should_populate() && s.last().data@.len()
            != s.last().size {
            1int
        } else {
            0int
        })
    }
}

/// A region carries exactly the payload the snapshot invariant requires:
/// full if it is to be populated, empty otherwise.
pub open spec fn region_populated(m: MemoryMap) -> bool {
    if m.spec_should_populate() {
        m.data@.len() == m.size
    } else {
        m.data@.len() == 0
    }
}

impl ProcessState {
    /// The snapshot invariant.
    pub open spec fn wf(self) -> bool {
        &&& self.regs@.len() == crate::bank::GP_REG_COUNT
        &&& forall|i: int| 0 <= i < self.memory_maps@.len() ==> (#[trigger] self.memory_maps@[
            i
        ]).wf()
        &&& forall|i: int| 0 <= i < self.memory_maps@.len() ==> region_populated(
            #[trigger] self.memory_maps@[i],
        )
    }

    /// The snapshot's register bank.
    pub fn bank(&self) -> (r: RegisterBank)
        ensures
            r@.regs == self.regs@,
            r@.sp == self.sp && r@.pc == self.pc && r@.pstate == self.pstate,
    {
        let regs = crate::exchange::copy_u64s(&self.regs);
        RegisterBank { regs, sp: self.sp, pc: self.pc, pstate: self.pstate }
    }
}

/// Whether a populating read should fill this region.
pub fn should_populate(m: &MemoryMap) -> (r: bool)
    ensures
        r == m.spec_should_populate(),
{
    m.readable && !crate::maps::label_is_vvar(&m.label)
}

/// Fill each region's payload by reading the target's memory.
///
/// A region that is unreadable or is the `[vvar]` sentinel keeps its empty
/// payload.  A region whose read fails is skipped — its payload stays
/// empty — rather than aborting the snapshot.  The returned count is
/// exactly the number of eligible regions left unfilled; when it is zero,
/// every region satisfies the snapshot invariant.
pub fn populate_memory(c: &ProcessController, maps: &mut Vec<MemoryMap>) -> (skipped: usize)
    requires
        forall|i: int| 0 <= i < old(maps)@.len() ==> (#[trigger] old(maps)@[i]).wf(),
        forall|i: int| 0 <= i < old(maps)@.len() ==> (#[trigger] old(maps)@[i]).data@.len() == 0,
    ensures
        final(maps)@.len() == old(maps)@.len(),
        forall|i: int|
            0 <= i < final(maps)@.len() ==> {
                let m = #[trigger] final(maps)@[i];
                let m0 = old(maps)@[i];
                &&& m.base_address == m0.base_address
                &&& m.size == m0.size
                &&& m.label@ == m0.label@
                &&& m.readable == m0.readable
                &&& m.writable == m0.writable
                &&& m.executable == m0.executable
                &&& m.private == m0.private
                &&& m.wf()
                &&& (!m.spec_should_populate() ==> m.data@.len() == 0)
                &&& (m.data@.len() == 0 || m.data@.len() == m.size)
            },
        skipped == count_unfilled(final(maps)@),
        skipped == 0 ==> forall|i: int|
            0 <= i < final(maps)@.len() ==> region_populated(#[trigger] final(maps)@[i]),
{
    let mut skipped: usize = 0;
    let mut i: usize = 0;
    let len = maps.len();
    while i < len
        invariant
            i <= len,
            len == maps@.len(),
            maps@.len() == old(maps)@.len(),
            skipped <= i,
            forall|j: int| i <= j < maps@.len() ==> maps@[j] == old(maps)@[j],
            forall|j: int| 0 <= j < maps@.len() ==> (#[trigger] old(maps)@[j]).wf(),
            forall|j: int| 0 <= j < maps@.len() ==> (#[trigger] old(maps)@[j]).data@.len() == 0,
            forall|j: int|
                0 <= j < i ==> {
                    let m = #[trigger] maps@[j];
                    let m0 = old(maps)@[j];
                    &&& m.base_address == m0.base_address
                    &&& m.size == m0.size
                    &&& m.label@ == m0.label@
                    &&& m.readable == m0.readable
                    &&& m.writable == m0.writable
                    &&& m.executable == m0.executable
                    &&& m.private == m0.private
                    &&& m.wf()
                    &&& (!m.spec_should_populate() ==> m.data@.len() == 0)
                    &&& (m.data@.len() == 0 || m.data@.len() == m.size)
                },
            skipped == count_unfilled(maps@.take(i as int)),
            skipped == 0 ==> forall|j: int|
                0 <= j < i ==> region_populated(#[trigger] maps@[j]),
        decreases len - i,
    {
        let ghost pre = maps@;
        let want = should_populate(&maps[i]);
        let size_fits = maps[i].size <= usize::MAX as u64;
        if want && size_fits {
            let base = maps[i].base_address;
            let size = maps[i].size as usize;
            match c.read_bytes(base, size) {
                Ok(buf) => {
                    let m = &maps[i];
                    let filled = MemoryMap {
                        base_address: m.base_address,
                        size: m.size,
                        label: m.label.clone(),
                        readable: m.readable,
                        writable: m.writable,
                        executable: m.executable,
                        private: m.private,
                        data: buf,
                    };
                    maps[i] = filled;
                },
                Err(_) => {
                    skipped = skipped + 1;
                },
            }
        } else if want {
            skipped = skipped + 1;
        }
        proof {
            assert(maps@.take(i as int) =~= pre.take(i as int));
            assert(maps@.take(i + 1).drop_last() =~= maps@.take(i as int));
            assert(maps@.take(i + 1).last() == maps@[i as int]);
            if !(maps@[i as int].spec_should_populate() && maps@[i as int].data@.len()
                != maps@[i as int].size) {
                assert(count_unfilled(maps@.take(i + 1)) == count_unfilled(maps@.take(i as int)));
            } else {
                assert(count_unfilled(maps@.take(i + 1)) == count_unfilled(maps@.take(i as int))
                    + 1);
            }
        }
        i = i + 1;
    }
    proof {
        assert(maps@.take(maps@.len() as int) =~= maps@);
    }
    skipped
}

/// Assemble a snapshot from populated regions and a fetched register bank.
/// When every region carries its required payload, the result satisfies
/// the snapshot invariant.
pub fn assemble_snapshot(maps: Vec<MemoryMap>, bank: &RegisterBank) -> (r: ProcessState)
    requires
        bank@.wf(),
    ensures
        r.memory_maps@ == maps@,
        r.regs@ == bank@.regs,
        r.sp == bank@.sp && r.pc == bank@.pc && r.pstate == bank@.pstate,
        (forall|i: int|
            0 <= i < maps@.len() ==> (#[trigger] maps@[i]).wf() && region_populated(maps@[i]))
            ==> r.wf(),
{
    let regs = crate::exchange::copy_u64s(&bank.regs);
    ProcessState { memory_maps: maps, regs, sp: bank.sp, pc: bank.pc, pstate: bank.pstate }
}

/// The memory half of a freeze: parse the kernel's map text for the
/// stopped target, then populate every eligible region from its memory.
/// Returns the regions and how many eligible regions could not be read.
pub fn freeze_memory(c: &ProcessController, maps_text: &str) -> (r: Result<
    (Vec<MemoryMap>, usize),
    ProcError,
>)
    ensures
        match r {
            Ok((v, skipped)) => {
                &&& forall|i: int|
                    0 <= i < v@.len() ==> (#[trigger] v@[i]).wf() && (!v@[i].spec_should_populate()
                        ==> v@[i].data@.len() == 0) && (v@[i].data@.len() == 0 || v@[i].data@.len()
                        == v@[i].size)
                &&& (skipped == 0 ==> forall|i: int|
                    0 <= i < v@.len() ==> region_populated(#[trigger] v@[i]))
            },
            Err(e) => e == ProcError::MapParse,
        },
{
    let mut maps = match crate::maps::parse_memory_maps(maps_text) {
        Ok(v) => v,
        Err(_) => {
            return Err(ProcError::MapParse);
        },
    };
    proof {
        let ms = crate::maps::spec_parse_all(crate::maps::spec_lines(crate::maps::bytes_of(maps_text))).unwrap();
        assert(forall|i: int|
            0 <= i < maps@.len() ==> crate::maps::map_matches(#[trigger] maps@[i], ms[i]));
        assert(forall|i: int| 0 <= i < maps@.len() ==> (#[trigger] maps@[i]).data@.len() == 0);
    }
    let skipped = populate_memory(c, &mut maps);
    Ok((maps, skipped))
}

} // verus!

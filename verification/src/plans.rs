//! The exact system calls that the composite operations inject.
//!
//! Each composite operation (redirect, takeover, rewind, thaw, the
//! image-transfer server) drives the target through a fixed sequence of
//! injected system calls.  The sequences are built here as plain data with
//! exact contracts, so that what each operation does to the target is
//! pinned down independently of the machinery that performs it.

use vstd::prelude::*;

use crate::maps::MemoryMap;
use crate::errors::ProcError;

verus! {

// Syscall numbers of the supported 64-bit platform ABI.
pub const SYS_OPENAT: u64 = 56;

pub const SYS_CLOSE: u64 = 57;

pub const SYS_READ: u64 = 63;

pub const SYS_WRITE: u64 = 64;

pub const SYS_MPROTECT: u64 = 226;

pub const SYS_MUNMAP: u64 = 215;

pub const SYS_EXECVE: u64 = 221;

pub const SYS_MMAP: u64 = 222;

// Protection and mapping flags of the platform ABI.
pub const PROT_READ: u64 = 1;

pub const PROT_WRITE: u64 = 2;

pub const PROT_EXEC: u64 = 4;

pub const MAP_SHARED: u64 = 1;

pub const MAP_PRIVATE: u64 = 2;

pub const MAP_FIXED: u64 = 16;

pub const MAP_ANONYMOUS: u64 = 32;

pub const O_WRONLY: u64 = 1;

/// The all-ones argument that passes `-1` for a descriptor.
pub const NO_FD: u64 = 0xffff_ffff_ffff_ffff;

/// One page, as a syscall argument.
pub const PAGE_SIZE_BYTES: u64 = 4096;

/// One syscall to inject: the number, up to six arguments, and whether the
/// result must be checked as a fresh mapping (not the all-ones failure
/// value).
pub struct SyscallSpec {
    pub sysno: u64,
    pub args: Vec<u64>,
    pub expect_mapped: bool,
}

impl SyscallSpec {
    /// A syscall spec always fits the register file.
    pub open spec fn wf(self) -> bool {
        self.args@.len() <= 6
    }
}

/// The protection bits recorded for a region.
pub open spec fn spec_prot_of(readable: bool, writable: bool, executable: bool) -> u64 {
    (if readable { PROT_READ } else { 0 }) as u64 | (if writable { PROT_WRITE } else { 0 }) as u64
        | (if executable { PROT_EXEC } else { 0 }) as u64
}

/// Compute a region's protection bits.
pub fn prot_of(readable: bool, writable: bool, executable: bool) -> (r: u64)
    ensures
        r == spec_prot_of(readable, writable, executable),
{
    (if readable { PROT_READ } else { 0 }) | (if writable { PROT_WRITE } else { 0 }) | (if executable {
        PROT_EXEC
    } else {
        0
    })
}

/// `close(fd)`.
pub fn close_call(fd: u64) -> (r: SyscallSpec)
    ensures
        r.sysno == SYS_CLOSE,
        r.args@ =~= seq![fd],
        !r.expect_mapped,
        r.wf(),
{
    SyscallSpec { sysno: SYS_CLOSE, args: vec![fd], expect_mapped: false }
}

/// `openat(0, path, O_WRONLY, 0)`: the kernel assigns the lowest free
/// descriptor, which after two closes is 1 and then 2.
pub fn openat_wronly_call(path_addr: u64) -> (r: SyscallSpec)
    ensures
        r.sysno == SYS_OPENAT,
        r.args@ =~= seq![0u64, path_addr, O_WRONLY, 0u64],
        !r.expect_mapped,
        r.wf(),
{
    SyscallSpec { sysno: SYS_OPENAT, args: vec![0u64, path_addr, O_WRONLY, 0u64], expect_mapped: false }
}

/// `munmap(addr, len)`.
pub fn munmap_call(addr: u64, len: u64) -> (r: SyscallSpec)
    ensures
        r.sysno == SYS_MUNMAP,
        r.args@ =~= seq![addr, len],
        !r.expect_mapped,
        r.wf(),
{
    SyscallSpec { sysno: SYS_MUNMAP, args: vec![addr, len], expect_mapped: false }
}

/// `mprotect(addr, len, prot)`.
pub fn mprotect_call(addr: u64, len: u64, prot: u64) -> (r: SyscallSpec)
    ensures
        r.sysno == SYS_MPROTECT,
        r.args@ =~= seq![addr, len, prot],
        !r.expect_mapped,
        r.wf(),
{
    SyscallSpec { sysno: SYS_MPROTECT, args: vec![addr, len, prot], expect_mapped: false }
}

/// `execve(path, argv, envp)`.
pub fn execve_call(path_addr: u64, argv_addr: u64, envp_addr: u64) -> (r: SyscallSpec)
    ensures
        r.sysno == SYS_EXECVE,
        r.args@ =~= seq![path_addr, argv_addr, envp_addr],
        !r.expect_mapped,
        r.wf(),
{
    SyscallSpec { sysno: SYS_EXECVE, args: vec![path_addr, argv_addr, envp_addr], expect_mapped: false }
}

/// A private anonymous `mmap(addr, len, prot, flags, -1, 0)`, checked
/// against the failure value.
pub fn mmap_anon_call(addr: u64, len: u64, prot: u64) -> (r: SyscallSpec)
    ensures
        r.sysno == SYS_MMAP,
        r.args@ =~= seq![addr, len, prot, (MAP_PRIVATE | MAP_ANONYMOUS) as u64, NO_FD, 0u64],
        r.expect_mapped,
        r.wf(),
{
    SyscallSpec {
        sysno: SYS_MMAP,
        args: vec![addr, len, prot, MAP_PRIVATE | MAP_ANONYMOUS, NO_FD, 0u64],
        expect_mapped: true,
    }
}

/// The calls that redirect standard output and error: close descriptors 1
/// and 2, then open the terminal path twice, taking the freed slots in
/// order.
pub fn redirect_calls(path_addr: u64) -> (r: Vec<SyscallSpec>)
    ensures
        r@.len() == 4,
        r@[0].sysno == SYS_CLOSE && r@[0].args@ =~= seq![1u64],
        r@[1].sysno == SYS_CLOSE && r@[1].args@ =~= seq![2u64],
        r@[2].sysno == SYS_OPENAT && r@[2].args@ =~= seq![0u64, path_addr, O_WRONLY, 0u64],
        r@[3].sysno == SYS_OPENAT && r@[3].args@ =~= seq![0u64, path_addr, O_WRONLY, 0u64],
        forall|i: int| 0 <= i < r@.len() ==> (#[trigger] r@[i]).wf() && !r@[i].expect_mapped,
{
    let mut r: Vec<SyscallSpec> = Vec::new();
    r.push(close_call(1));
    r.push(close_call(2));
    r.push(openat_wronly_call(path_addr));
    r.push(openat_wronly_call(path_addr));
    r
}

/// The calls that rebuild one snapshot region inside the target: unmap
/// whatever lies in its range, map a fresh private anonymous region there
/// with the recorded protections plus write, and — when the region was not
/// writable — drop the protections back after the payload is copied in.
///
/// The payload copy itself happens between the second and third call.
pub fn map_fill_calls(m: &MemoryMap) -> (r: Vec<SyscallSpec>)
    ensures
        r@.len() == (if m.writable { 2int } else { 3int }),
        r@[0].sysno == SYS_MUNMAP && r@[0].args@ =~= seq![m.base_address, m.size]
            && !r@[0].expect_mapped,
        r@[1].sysno == SYS_MMAP && r@[1].args@ =~= seq![
            m.base_address,
            m.size,
            (spec_prot_of(m.readable, m.writable, m.executable) | PROT_WRITE) as u64,
            (MAP_PRIVATE | MAP_ANONYMOUS) as u64,
            NO_FD,
            0u64,
        ] && r@[1].expect_mapped,
        !m.writable ==> r@[2].sysno == SYS_MPROTECT && r@[2].args@ =~= seq![
            m.base_address,
            m.size,
            spec_prot_of(m.readable, m.writable, m.executable),
        ] && !r@[2].expect_mapped,
        forall|i: int| 0 <= i < r@.len() ==> (#[trigger] r@[i]).wf(),
{
    let prot = prot_of(m.readable, m.writable, m.executable);
    let mut r: Vec<SyscallSpec> = Vec::new();
    r.push(munmap_call(m.base_address, m.size));
    r.push(mmap_anon_call(m.base_address, m.size, prot | PROT_WRITE));
    if !m.writable {
        r.push(mprotect_call(m.base_address, m.size, prot));
    }
    r
}

/// The two unmap calls issued before a thaw reconstructs the image: the
/// `[vvar]` region itself, and the one page immediately after `[vdso]`.
/// Those two kernel-provided mappings are recreated by the kernel itself,
/// not restored from the snapshot.
pub fn unmap_existing_calls(vvar_addr: u64, vvar_size: u64, vdso_end: u64) -> (r: Vec<
    SyscallSpec,
>)
    ensures
        r@.len() == 2,
        r@[0].sysno == SYS_MUNMAP && r@[0].args@ =~= seq![vdso_end, crate::maps::PAGE_SIZE],
        r@[1].sysno == SYS_MUNMAP && r@[1].args@ =~= seq![vvar_addr, vvar_size],
        forall|i: int| 0 <= i < r@.len() ==> (#[trigger] r@[i]).wf() && !r@[i].expect_mapped,
{
    let mut r: Vec<SyscallSpec> = Vec::new();
    r.push(munmap_call(vdso_end, PAGE_SIZE_BYTES));
    r.push(munmap_call(vvar_addr, vvar_size));
    r
}

/// Whether the image-transfer server must leave a region of the fresh
/// child mapped: the region holding the child's current program counter
/// cannot be unmapped while syscalls are injected through it, and regions
/// of exactly two mebibytes are left in place.
pub open spec fn spec_skip_unmap(m: MemoryMap, pc: u64) -> bool {
    ||| (m.base_address <= pc && (pc as int) < m.base_address + m.size)
    ||| m.size == 2097152
}

/// Decide whether the server-side unmap pass skips a region.
pub fn skip_unmap(m: &MemoryMap, pc: u64) -> (r: bool)
    requires
        m.base_address + m.size <= u64::MAX,
    ensures
        r == spec_skip_unmap(*m, pc),
{
    (m.base_address <= pc && pc < m.base_address + m.size) || m.size == 2097152
}

/// The call with which the server maps one transferred region in place:
/// `MAP_FIXED` at the recorded base, with the recorded protections, and
/// private or shared as the region records.
pub fn server_map_call(m: &MemoryMap) -> (r: SyscallSpec)
    ensures
        r.sysno == SYS_MMAP,
        r.args@ =~= seq![
            m.base_address,
            m.size,
            spec_prot_of(m.readable, m.writable, m.executable),
            ((if m.private { MAP_PRIVATE | MAP_ANONYMOUS } else { MAP_SHARED | MAP_ANONYMOUS })
                | MAP_FIXED) as u64,
            0u64,
            0u64,
        ],
        r.expect_mapped,
        r.wf(),
{
    let prot = prot_of(m.readable, m.writable, m.executable);
    let flags = (if m.private { MAP_PRIVATE | MAP_ANONYMOUS } else { MAP_SHARED | MAP_ANONYMOUS })
        | MAP_FIXED;
    SyscallSpec {
        sysno: SYS_MMAP,
        args: vec![m.base_address, m.size, prot, flags, 0u64, 0u64],
        expect_mapped: true,
    }
}

/// The highest end address of any region in a map list.
pub open spec fn spec_highest_end(s: Seq<MemoryMap>) -> int
    decreases s.len(),
{
    if s.len() == 0 {
        0
    } else {
        let rest = spec_highest_end(s.drop_last());
        let this = s.last().base_address + s.last().size;
        if this > rest {
            this
        } else {
            rest
        }
    }
}

/// Where the scratch pad goes: one page above the target's highest
/// existing mapping.  Fails only if that address would overflow.
pub fn svc_region_addr_for(maps: &Vec<MemoryMap>) -> (r: Option<u64>)
    requires
        forall|i: int| 0 <= i < maps@.len() ==> (#[trigger] maps@[i]).base_address + maps@[i].size
            <= u64::MAX,
    ensures
        match r {
            Some(a) => a == spec_highest_end(maps@) + crate::maps::PAGE_SIZE,
            None => spec_highest_end(maps@) + crate::maps::PAGE_SIZE > u64::MAX,
        },
{
    let mut highest: u64 = 0;
    let mut i: usize = 0;
    while i < maps.len()
        invariant
            i <= maps@.len(),
            forall|k: int| 0 <= k < maps@.len() ==> (#[trigger] maps@[k]).base_address
                + maps@[k].size <= u64::MAX,
            highest == spec_highest_end(maps@.take(i as int)),
        decreases maps@.len() - i,
    {
        let end = maps[i].base_address + maps[i].size;
        if end > highest {
            highest = end;
        }
        proof {
            assert(maps@.take(i + 1).drop_last() =~= maps@.take(i as int));
            assert(maps@.take(i + 1).last() == maps@[i as int]);
        }
        i = i + 1;
    }
    proof {
        assert(maps@.take(maps@.len() as int) =~= maps@);
    }
    if highest > u64::MAX - crate::maps::PAGE_SIZE {
        None
    } else {
        Some(highest + crate::maps::PAGE_SIZE)
    }
}

} // verus!

verus! {

/// The bytes of a path with its terminating NUL, as injected ahead of an
/// `openat` or `execve`.
pub fn nul_terminated(bytes: &[u8]) -> (r: Vec<u8>)
    ensures
        r@ == bytes@ + seq![0u8],
{
    let mut r = crate::maps::sub_bytes(bytes, 0, bytes.len());
    r.push(0);
    proof {
        assert(r@ =~= bytes@ + seq![0u8]);
    }
    r
}

/// The `execve` that re-executes a process from its original arguments:
/// the image path is the first injected argument's address.  An empty
/// argument list cannot be re-executed.
pub fn rewind_execve_call(addrs: &Vec<u64>, argv_addr: u64, envp_addr: u64) -> (r: Result<
    SyscallSpec,
    ProcError,
>)
    ensures
        addrs@.len() > 0 ==> (r matches Ok(c) && c.sysno == SYS_EXECVE && c.args@ =~= seq![
            addrs@[0],
            argv_addr,
            envp_addr,
        ] && c.wf() && !c.expect_mapped),
        addrs@.len() == 0 ==> r == Err::<SyscallSpec, ProcError>(ProcError::Protocol),
{
    if addrs.len() == 0 {
        return Err(ProcError::Protocol);
    }
    Ok(execve_call(addrs[0], argv_addr, envp_addr))
}

} // verus!

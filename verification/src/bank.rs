//! The general-purpose register bank and the pure register arithmetic of
//! syscall injection.
//!
//! The controller never interprets individual registers except: register 8
//! (syscall number), registers 0 to 5 (syscall arguments), register 0
//! (syscall result), and the program counter.  Everything it does to a bank
//! is a pure function here, verified against [`BankView`].

use vstd::prelude::*;
use vstd::bytes::{spec_u64_to_le_bytes, spec_u64_from_le_bytes, u64_to_le_bytes, u64_from_le_bytes};
use vstd::bytes::lemma_auto_spec_u64_to_from_le_bytes;

use crate::maps::sub_bytes;

verus! {

/// The number of general-purpose registers in a bank.
pub const GP_REG_COUNT: usize = 31;

/// The length in bytes of a serialized bank: the registers, then the stack
/// pointer, program counter and processor state, each as eight bytes,
/// least-significant first.
pub const BANK_BYTE_LEN: usize = 272;

/// The trap instruction (`svc #0`), as the kernel reads it from memory.
pub const SVC_WORD: u32 = 0xd4000001;

/// One complete set of general-purpose registers, as the kernel exposes
/// them for the supported processor.
pub struct RegisterBank {
    pub regs: Vec<u64>,
    pub sp: u64,
    pub pc: u64,
    pub pstate: u64,
}

/// The mathematical content of a register bank.
pub ghost struct BankView {
    pub regs: Seq<u64>,
    pub sp: u64,
    pub pc: u64,
    pub pstate: u64,
}

impl View for RegisterBank {
    type V = BankView;

    open spec fn view(&self) -> BankView {
        BankView { regs: self.regs@, sp: self.sp, pc: self.pc, pstate: self.pstate }
    }
}

impl BankView {
    /// A bank holds exactly the processor's register count.
    pub open spec fn wf(self) -> bool {
        self.regs.len() == GP_REG_COUNT
    }
}

impl RegisterBank {
    /// The all-zero bank.
    pub fn zeroed() -> (r: RegisterBank)
        ensures
            r@.wf(),
            r@.regs =~= Seq::new(GP_REG_COUNT as nat, |i: int| 0u64),
            r@.sp == 0 && r@.pc == 0 && r@.pstate == 0,
    {
        let mut regs: Vec<u64> = Vec::new();
        let mut i: usize = 0;
        while i < GP_REG_COUNT
            invariant
                i <= GP_REG_COUNT,
                regs@.len() == i,
                forall|j: int| 0 <= j < i ==> regs@[j] == 0,
            decreases GP_REG_COUNT - i,
        {
            regs.push(0);
            i = i + 1;
        }
        proof {
            assert(regs@ =~= Seq::new(GP_REG_COUNT as nat, |i: int| 0u64));
        }
        RegisterBank { regs, sp: 0, pc: 0, pstate: 0 }
    }

    /// Copy a bank.
    pub fn duplicate(&self) -> (r: RegisterBank)
        ensures
            r@ == self@,
    {
        let mut regs: Vec<u64> = Vec::new();
        let mut i: usize = 0;
        while i < self.regs.len()
            invariant
                i <= self.regs@.len(),
                regs@ =~= self.regs@.take(i as int),
            decreases self.regs@.len() - i,
        {
            regs.push(self.regs[i]);
            i = i + 1;
        }
        proof {
            assert(regs@ =~= self.regs@);
        }
        RegisterBank { regs, sp: self.sp, pc: self.pc, pstate: self.pstate }
    }
}

/// The bank that prepares a syscall: the number in register 8, the
/// arguments in registers 0 onward, the program counter at the trap; every
/// other register, the stack pointer and the processor state unchanged.
pub open spec fn spec_with_syscall(b: BankView, sysno: u64, args: Seq<u64>, pc: u64) -> BankView {
    BankView {
        regs: Seq::new(
            GP_REG_COUNT as nat,
            |i: int|
                if 0 <= i < args.len() {
                    args[i]
                } else if i == 8 {
                    sysno
                } else {
                    b.regs[i]
                },
        ),
        sp: b.sp,
        pc: pc,
        pstate: b.pstate,
    }
}

/// Load a bank with a prepared syscall, leaving the original bank intact.
pub fn with_syscall(bank: &RegisterBank, sysno: u64, args: &Vec<u64>, pc: u64) -> (r: RegisterBank)
    requires
        bank@.wf(),
        args@.len() <= 6,
    ensures
        r@ == spec_with_syscall(bank@, sysno, args@, pc),
        r@.wf(),
{
    let mut r = bank.duplicate();
    r.regs[8] = sysno;
    let mut i: usize = 0;
    while i < args.len()
        invariant
            bank@.wf(),
            args@.len() <= 6,
            i <= args@.len(),
            r.regs@.len() == GP_REG_COUNT,
            forall|j: int| 0 <= j < i ==> r.regs@[j] == args@[j],
            forall|j: int| args@.len() <= j < GP_REG_COUNT && j != 8 ==> r.regs@[j] == bank@.regs[j],
            r.regs@[8] == (if args@.len() > 8 { args@[8] } else { sysno }),
            forall|j: int| i <= j < args@.len() && j != 8 ==> r.regs@[j] == bank@.regs[j],
            r.sp == bank.sp && r.pstate == bank.pstate,
        decreases args@.len() - i,
    {
        r.regs[i] = args[i];
        i = i + 1;
    }
    r.pc = pc;
    proof {
        assert(r@.regs =~= spec_with_syscall(bank@, sysno, args@, pc).regs);
    }
    r
}

/// Whether a 4-byte word read from the target is the trap instruction.
pub open spec fn spec_is_svc_word(w: u32) -> bool {
    w == SVC_WORD
}

/// What the current-syscall probe decodes from the word under the program
/// counter: at a trap, the pair (syscall number, first argument).
pub open spec fn spec_current_syscall(b: BankView, word: u32) -> Option<(u64, u64)> {
    if spec_is_svc_word(word) {
        Some((b.regs[8], b.regs[0]))
    } else {
        None
    }
}

/// Decode the current-syscall probe from a fetched bank and the 4-byte word
/// under its program counter.
pub fn decode_current_syscall(bank: &RegisterBank, word: u32) -> (r: Option<(u64, u64)>)
    requires
        bank@.wf(),
    ensures
        r == spec_current_syscall(bank@, word),
{
    if word == SVC_WORD {
        Some((bank.regs[8], bank.regs[0]))
    } else {
        None
    }
}

/// Whether a stopped target is entering a write to the given descriptor;
/// if so, the buffer address and byte count it passed.
pub open spec fn spec_writing_to_fd(b: BankView, fd: u64) -> Option<(u64, u64)> {
    if b.regs[8] == crate::plans::SYS_WRITE && b.regs[0] == fd {
        Some((b.regs[1], b.regs[2]))
    } else {
        None
    }
}

/// Decode whether a fetched bank shows a write to the given descriptor.
pub fn decode_writing_to_fd(bank: &RegisterBank, fd: u64) -> (r: Option<(u64, u64)>)
    requires
        bank@.wf(),
    ensures
        r == spec_writing_to_fd(bank@, fd),
{
    if bank.regs[8] == crate::plans::SYS_WRITE && bank.regs[0] == fd {
        Some((bank.regs[1], bank.regs[2]))
    } else {
        None
    }
}

/// Whether a stopped target is entering a read from descriptor 0; the probe
/// that decides whether a pending terminal read must be cancelled.
pub open spec fn spec_pending_stdin_read(probe: Option<(u64, u64)>) -> bool {
    match probe {
        Some((sysno, arg)) => sysno == crate::plans::SYS_READ && arg == 0,
        None => false,
    }
}

/// Decide whether the current-syscall probe shows a pending read of
/// descriptor 0.
pub fn is_pending_stdin_read(probe: &Option<(u64, u64)>) -> (r: bool)
    ensures
        r == spec_pending_stdin_read(*probe),
{
    match probe {
        Some((sysno, arg)) => *sysno == crate::plans::SYS_READ && *arg == 0,
        None => false,
    }
}

/// The byte at offset `j` of a buffer filled with repeated trap
/// instructions.
pub open spec fn svc_fill_byte(j: int) -> u8 {
    if j % 4 == 0 {
        1
    } else if j % 4 == 3 {
        0xd4
    } else {
        0
    }
}

/// Build `count` repetitions of the 4-byte trap instruction.
pub fn svc_pattern(count: usize) -> (r: Vec<u8>)
    requires
        count <= usize::MAX / 4,
    ensures
        r@.len() == 4 * count,
        forall|j: int| 0 <= j < r@.len() ==> r@[j] == svc_fill_byte(j),
{
    let mut r: Vec<u8> = Vec::new();
    let mut i: usize = 0;
    while i < count
        invariant
            i <= count,
            count <= usize::MAX / 4,
            r@.len() == 4 * i,
            forall|j: int| 0 <= j < r@.len() ==> r@[j] == svc_fill_byte(j),
        decreases count - i,
    {
        r.push(1);
        r.push(0);
        r.push(0);
        r.push(0xd4);
        proof {
            let k = i as int;
            assert((4 * k) % 4 == 0 && (4 * k + 1) % 4 == 1 && (4 * k + 2) % 4 == 2 && (4 * k + 3)
                % 4 == 3) by (nonlinear_arith);
        }
        i = i + 1;
    }
    r
}

/// Every aligned 4-byte slot of the pattern holds the trap instruction:
/// for each `k` below the repetition count, the bytes at offsets `4k` to
/// `4k+3` are exactly the trap's little-endian encoding.
pub proof fn lemma_svc_pattern_traps(bytes: Seq<u8>, count: int, k: int)
    requires
        bytes.len() == 4 * count,
        forall|j: int| 0 <= j < bytes.len() ==> bytes[j] == svc_fill_byte(j),
        0 <= k < count,
    ensures
        bytes[4 * k] == 1,
        bytes[4 * k + 1] == 0,
        bytes[4 * k + 2] == 0,
        bytes[4 * k + 3] == 0xd4,
{
    assert((4 * k) % 4 == 0 && (4 * k + 1) % 4 == 1 && (4 * k + 2) % 4 == 2 && (4 * k + 3) % 4
        == 3) by (nonlinear_arith);
    assert(0 <= 4 * k && 4 * k + 3 < bytes.len()) by (nonlinear_arith)
        requires 0 <= k < count && bytes.len() == 4 * count;
    assert(bytes[4 * k] == svc_fill_byte(4 * k));
    assert(bytes[4 * k + 1] == svc_fill_byte(4 * k + 1));
    assert(bytes[4 * k + 2] == svc_fill_byte(4 * k + 2));
    assert(bytes[4 * k + 3] == svc_fill_byte(4 * k + 3));
}

/// The first offset of a trap instruction in a buffer, if any.
pub open spec fn spec_svc_at(s: Seq<u8>, j: int) -> bool {
    &&& s[j] == 1
    &&& s[j + 1] == 0
    &&& s[j + 2] == 0
    &&& s[j + 3] == 0xd4
}

/// Scan a buffer for the first trap instruction, at any byte offset.
pub fn find_svc_offset(buffer: &[u8]) -> (r: Option<usize>)
    ensures
        match r {
            Some(i) => i + 3 < buffer@.len() && spec_svc_at(buffer@, i as int) && forall|j: int|
                0 <= j < i ==> !spec_svc_at(buffer@, j),
            None => forall|j: int| 0 <= j && j + 3 < buffer@.len() ==> !spec_svc_at(buffer@, j),
        },
{
    if buffer.len() < 4 {
        return None;
    }
    let mut i: usize = 0;
    while i < buffer.len() - 3
        invariant
            buffer@.len() >= 4,
            i <= buffer@.len() - 3,
            forall|j: int| 0 <= j < i ==> !spec_svc_at(buffer@, j),
        decreases buffer@.len() - i,
    {
        if buffer[i] == 1 && buffer[i + 1] == 0 && buffer[i + 2] == 0 && buffer[i + 3] == 0xd4 {
            return Some(i);
        }
        i = i + 1;
    }
    None
}

/// The transformation applied to each letter byte: rotate the alphabet by
/// thirteen places, leaving every other byte unchanged.
pub open spec fn spec_rot13_byte(b: u8) -> u8 {
    if 65 <= b && b <= 90 {
        ((((b - 65) + 13) % 26) + 65) as u8
    } else if 97 <= b && b <= 122 {
        ((((b - 97) + 13) % 26) + 97) as u8
    } else {
        b
    }
}

/// Rotate one byte by thirteen alphabet places.
pub fn rot13_byte(b: u8) -> (r: u8)
    ensures
        r == spec_rot13_byte(b),
{
    if b >= 65 && b <= 90 {
        (((b - 65) + 13) % 26) + 65
    } else if b >= 97 && b <= 122 {
        (((b - 97) + 13) % 26) + 97
    } else {
        b
    }
}

/// The little-endian bytes of a sequence of 64-bit words.
pub open spec fn spec_u64s_le(xs: Seq<u64>) -> Seq<u8>
    decreases xs.len(),
{
    if xs.len() == 0 {
        Seq::empty()
    } else {
        spec_u64_to_le_bytes(xs[0]) + spec_u64s_le(xs.drop_first())
    }
}

/// The concatenation of the little-endian encodings of the words.
pub fn encode_u64s_le(xs: &Vec<u64>) -> (r: Vec<u8>)
    ensures
        r@ == spec_u64s_le(xs@),
        r@.len() == 8 * xs@.len(),
    decreases xs@.len(),
{
    proof {
        lemma_u64s_le_len(xs@);
    }
    let mut r: Vec<u8> = Vec::new();
    let mut i: usize = 0;
    while i < xs.len()
        invariant
            i <= xs@.len(),
            r@ =~= spec_u64s_le(xs@.take(i as int)),
        decreases xs@.len() - i,
    {
        let mut word = u64_to_le_bytes(xs[i]);
        let mut k: usize = 0;
        while k < word.len()
            invariant
                k <= word@.len(),
                word@ == spec_u64_to_le_bytes(xs@[i as int]),
                i < xs@.len(),
                r@ =~= spec_u64s_le(xs@.take(i as int)) + word@.take(k as int),
            decreases word@.len() - k,
        {
            r.push(word[k]);
            k = k + 1;
        }
        proof {
            lemma_u64s_le_snoc(xs@, i as int);
            assert(word@.take(word@.len() as int) =~= word@);
            assert(r@ =~= spec_u64s_le(xs@.take(i + 1)));
        }
        i = i + 1;
    }
    proof {
        assert(xs@.take(xs@.len() as int) =~= xs@);
        lemma_u64s_le_len(xs@);
    }
    r
}

/// The length of the little-endian encoding.
pub proof fn lemma_u64s_le_len(xs: Seq<u64>)
    ensures
        spec_u64s_le(xs).len() == 8 * xs.len(),
    decreases xs.len(),
{
    lemma_auto_spec_u64_to_from_le_bytes();
    if xs.len() > 0 {
        lemma_u64s_le_len(xs.drop_first());
    }
}

/// Extending the encoded words by one appends that word's encoding.
pub proof fn lemma_u64s_le_snoc(xs: Seq<u64>, i: int)
    requires
        0 <= i < xs.len(),
    ensures
        spec_u64s_le(xs.take(i + 1)) == spec_u64s_le(xs.take(i)) + spec_u64_to_le_bytes(xs[i]),
    decreases i,
{
    lemma_auto_spec_u64_to_from_le_bytes();
    if i == 0 {
        assert(xs.take(1).drop_first() =~= Seq::<u64>::empty());
        assert(spec_u64s_le(Seq::<u64>::empty()) == Seq::<u8>::empty());
        assert(xs.take(1)[0] == xs[0]);
        assert(xs.take(1).len() == 1);
        assert(spec_u64s_le(xs.take(1)) == spec_u64_to_le_bytes(xs[0]) + Seq::<u8>::empty());
        assert(spec_u64_to_le_bytes(xs[0]) + Seq::<u8>::empty() =~= spec_u64_to_le_bytes(xs[0]));
        assert(xs.take(0) =~= Seq::<u64>::empty());
        assert(spec_u64s_le(xs.take(0)) == Seq::<u8>::empty());
        assert(Seq::<u8>::empty() + spec_u64_to_le_bytes(xs[0]) =~= spec_u64_to_le_bytes(xs[0]));
    } else {
        lemma_u64s_le_snoc(xs.drop_first(), i - 1);
        assert(xs.take(i + 1).drop_first() =~= xs.drop_first().take(i));
        assert(xs.take(i).drop_first() =~= xs.drop_first().take(i - 1));
        assert(xs.take(i + 1)[0] == xs[0]);
        assert(xs.take(i)[0] == xs[0]);
        assert(xs.drop_first()[i - 1] == xs[i]);
        assert(spec_u64s_le(xs.take(i + 1)) =~= spec_u64_to_le_bytes(xs[0]) + spec_u64s_le(
            xs.drop_first().take(i),
        ));
        assert(spec_u64_to_le_bytes(xs[0]) + (spec_u64s_le(xs.drop_first().take(i - 1))
            + spec_u64_to_le_bytes(xs[i])) =~= (spec_u64_to_le_bytes(xs[0]) + spec_u64s_le(
            xs.drop_first().take(i - 1),
        )) + spec_u64_to_le_bytes(xs[i]));
        assert(spec_u64s_le(xs.take(i)) =~= spec_u64_to_le_bytes(xs[0]) + spec_u64s_le(
            xs.drop_first().take(i - 1),
        ));
    }
}

} // verus!

verus! {

/// The serialized form of a register bank: each register, then the stack
/// pointer, the program counter and the processor state, as eight
/// little-endian bytes each.
pub open spec fn spec_bank_bytes(b: BankView) -> Seq<u8> {
    spec_u64s_le(b.regs) + spec_u64_to_le_bytes(b.sp) + spec_u64_to_le_bytes(b.pc)
        + spec_u64_to_le_bytes(b.pstate)
}

/// The bank a serialized form denotes.
pub open spec fn spec_decode_bank(s: Seq<u8>) -> BankView {
    BankView {
        regs: Seq::new(GP_REG_COUNT as nat, |i: int| spec_u64_from_le_bytes(s.subrange(8 * i, 8 * i + 8))),
        sp: spec_u64_from_le_bytes(s.subrange(248, 256)),
        pc: spec_u64_from_le_bytes(s.subrange(256, 264)),
        pstate: spec_u64_from_le_bytes(s.subrange(264, 272)),
    }
}

/// Each aligned chunk of the encoding is its word's encoding.
proof fn lemma_u64s_le_chunk(xs: Seq<u64>, i: int)
    requires
        0 <= i < xs.len(),
    ensures
        spec_u64s_le(xs).subrange(8 * i, 8 * i + 8) == spec_u64_to_le_bytes(xs[i]),
    decreases i,
{
    lemma_auto_spec_u64_to_from_le_bytes();
    lemma_u64s_le_len(xs);
    lemma_u64s_le_len(xs.drop_first());
    if i == 0 {
        assert(spec_u64s_le(xs) == spec_u64_to_le_bytes(xs[0]) + spec_u64s_le(xs.drop_first()));
        assert(spec_u64s_le(xs).subrange(0, 8) =~= spec_u64_to_le_bytes(xs[0]));
    } else {
        lemma_u64s_le_chunk(xs.drop_first(), i - 1);
        assert(xs.drop_first()[i - 1] == xs[i]);
        assert(spec_u64s_le(xs) == spec_u64_to_le_bytes(xs[0]) + spec_u64s_le(xs.drop_first()));
        assert(spec_u64s_le(xs).subrange(8 * i, 8 * i + 8) =~= spec_u64s_le(
            xs.drop_first(),
        ).subrange(8 * (i - 1), 8 * (i - 1) + 8));
    }
}

/// Serialization round-trips: decoding an encoded bank gives the bank
/// back.  This is what carries the register half of a snapshot through a
/// freeze and a thaw, or across the wire to the image-transfer peer,
/// unchanged.
pub proof fn lemma_bank_codec_roundtrip(b: BankView)
    requires
        b.wf(),
    ensures
        spec_decode_bank(spec_bank_bytes(b)) == b,
{
    lemma_auto_spec_u64_to_from_le_bytes();
    lemma_u64s_le_len(b.regs);
    let s = spec_bank_bytes(b);
    assert(s.len() == 272);
    let d = spec_decode_bank(s);
    assert forall|i: int| 0 <= i < GP_REG_COUNT implies d.regs[i] == b.regs[i] by {
        lemma_u64s_le_chunk(b.regs, i);
        assert(s.subrange(8 * i, 8 * i + 8) =~= spec_u64s_le(b.regs).subrange(8 * i, 8 * i + 8));
    }
    assert(s.subrange(248, 256) =~= spec_u64_to_le_bytes(b.sp));
    assert(s.subrange(256, 264) =~= spec_u64_to_le_bytes(b.pc));
    assert(s.subrange(264, 272) =~= spec_u64_to_le_bytes(b.pstate));
    assert(d.regs =~= b.regs);
}

/// Serialize a bank to its 272-byte kernel form.
pub fn encode_bank(bank: &RegisterBank) -> (r: Vec<u8>)
    requires
        bank@.wf(),
    ensures
        r@ == spec_bank_bytes(bank@),
        r@.len() == BANK_BYTE_LEN,
{
    proof {
        lemma_u64s_le_len(bank@.regs);
        lemma_auto_spec_u64_to_from_le_bytes();
    }
    let mut r = encode_u64s_le(&bank.regs);
    let mut sp = u64_to_le_bytes(bank.sp);
    let mut pc = u64_to_le_bytes(bank.pc);
    let mut pstate = u64_to_le_bytes(bank.pstate);
    r.append(&mut sp);
    r.append(&mut pc);
    r.append(&mut pstate);
    proof {
        assert(r@ =~= spec_bank_bytes(bank@));
    }
    r
}

/// Deserialize a bank from its 272-byte kernel form; any other length is
/// rejected.
pub fn decode_bank(bytes: &[u8]) -> (r: Option<RegisterBank>)
    ensures
        bytes@.len() == BANK_BYTE_LEN ==> (r matches Some(b) && b@ == spec_decode_bank(bytes@)
            && b@.wf()),
        bytes@.len() != BANK_BYTE_LEN ==> r is None,
{
    if bytes.len() != BANK_BYTE_LEN {
        return None;
    }
    let mut regs: Vec<u64> = Vec::new();
    let mut i: usize = 0;
    while i < GP_REG_COUNT
        invariant
            i <= GP_REG_COUNT,
            bytes@.len() == BANK_BYTE_LEN,
            regs@.len() == i,
            forall|j: int|
                0 <= j < i ==> regs@[j] == spec_u64_from_le_bytes(
                    bytes@.subrange(8 * j, 8 * j + 8),
                ),
        decreases GP_REG_COUNT - i,
    {
        let chunk = sub_bytes(bytes, 8 * i, 8 * i + 8);
        let w = u64_from_le_bytes(chunk.as_slice());
        regs.push(w);
        i = i + 1;
    }
    let sp_c = sub_bytes(bytes, 248, 256);
    let sp = u64_from_le_bytes(sp_c.as_slice());
    let pc_c = sub_bytes(bytes, 256, 264);
    let pc = u64_from_le_bytes(pc_c.as_slice());
    let ps_c = sub_bytes(bytes, 264, 272);
    let pstate = u64_from_le_bytes(ps_c.as_slice());
    let b = RegisterBank { regs, sp, pc, pstate };
    proof {
        assert(b@.regs =~= spec_decode_bank(bytes@).regs);
    }
    Some(b)
}

} // verus!

verus! {

/// The word-level output rotation: the low byte rotated by thirteen
/// alphabet places, the upper bytes unchanged.
pub open spec fn spec_rot13_word(c: u64) -> u64 {
    (c & 0xffff_ffff_ffff_ff00) | spec_rot13_byte((c & 0xff) as u8) as u64
}

/// Rotate the low byte of a word read from the target.
pub fn rot13_word(c: u64) -> (r: u64)
    ensures
        r == spec_rot13_word(c),
{
    let low = (c & 0xff) as u8;
    let rot = rot13_byte(low);
    (c & 0xffff_ffff_ffff_ff00) | rot as u64
}

/// The red-coloured form of an output buffer: the colour escape, the
/// bytes, the reset escape, padded with NULs to a whole number of 8-byte
/// words.  The first value is the padded buffer; the second is the length
/// before padding, which the rewritten write call reports.
pub open spec fn spec_colorized(s: Seq<u8>) -> Seq<u8> {
    let body = seq![27u8, 91u8, 51u8, 49u8, 109u8] + s + seq![27u8, 91u8, 48u8, 109u8];
    body + Seq::new(((8 - body.len() % 8) % 8) as nat, |i: int| 0u8)
}

/// Wrap an output buffer in the red-colour escapes and pad it for
/// word-sized cross-process writes.
pub fn colorize_payload(s: &[u8]) -> (r: (Vec<u8>, usize))
    requires
        s@.len() <= usize::MAX - 16,
    ensures
        r.0@ == spec_colorized(s@),
        r.1 == s@.len() + 9,
        r.0@.len() % 8 == 0,
{
    let mut v: Vec<u8> = Vec::new();
    v.push(27);
    v.push(91);
    v.push(51);
    v.push(49);
    v.push(109);
    let mut i: usize = 0;
    while i < s.len()
        invariant
            i <= s@.len(),
            v@ =~= seq![27u8, 91u8, 51u8, 49u8, 109u8] + s@.take(i as int),
        decreases s@.len() - i,
    {
        v.push(s[i]);
        i = i + 1;
    }
    v.push(27);
    v.push(91);
    v.push(48);
    v.push(109);
    let unpadded = v.len();
    proof {
        assert(v@ =~= seq![27u8, 91u8, 51u8, 49u8, 109u8] + s@ + seq![27u8, 91u8, 48u8, 109u8]);
    }
    let pad = (8 - v.len() % 8) % 8;
    let mut k: usize = 0;
    while k < pad
        invariant
            k <= pad,
            pad < 8,
            unpadded + pad <= usize::MAX,
            v@.len() == unpadded + k,
            v@ =~= v@.take(unpadded as int) + Seq::new(k as nat, |i: int| 0u8),
            v@.take(unpadded as int) =~= seq![27u8, 91u8, 51u8, 49u8, 109u8] + s@ + seq![
                27u8,
                91u8,
                48u8,
                109u8,
            ],
            pad == (8 - (unpadded as int) % 8) % 8,
        decreases pad - k,
    {
        v.push(0);
        proof {
            assert(v@.take(unpadded as int) =~= v@.subrange(0, unpadded as int));
        }
        k = k + 1;
    }
    proof {
        assert(v@ =~= spec_colorized(s@));
    }
    (v, unpadded)
}

} // verus!

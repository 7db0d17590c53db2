use process_magic::bank::{
    colorize_payload, decode_bank, decode_current_syscall, decode_writing_to_fd, encode_bank,
    find_svc_offset, is_pending_stdin_read, rot13_word, svc_pattern, with_syscall, RegisterBank,
};
use process_magic::controller::ProcessController;
use process_magic::errors::ProcError;
use process_magic::exchange::{
    DriverCall, NudgeCall, PlanRunner, RunnerCall, StepOutOfSyscall, SyscallInjection,
};
use process_magic::ops::{InjectBytesRun, MapFillRun, OpCall};
use process_magic::maps::MemoryMap;
use process_magic::plans::{
    mmap_anon_call, redirect_calls, svc_region_addr_for, skip_unmap, NO_FD, SYS_CLOSE, SYS_MMAP,
    SYS_MUNMAP, SYS_OPENAT,
};
use process_magic::teleserver::{PatchCall, PatchSyscall};

fn bank_at(pc: u64) -> RegisterBank {
    let mut b = RegisterBank::zeroed();
    b.pc = pc;
    b
}

#[test]
fn test_with_syscall_loads_registers() {
    let mut base = RegisterBank::zeroed();
    base.regs[15] = 77;
    base.sp = 900;
    let b = with_syscall(&base, 93, &vec![7, 8], 0x4000);
    assert_eq!(b.regs[8], 93);
    assert_eq!(b.regs[0], 7);
    assert_eq!(b.regs[1], 8);
    assert_eq!(b.regs[15], 77);
    assert_eq!(b.pc, 0x4000);
    assert_eq!(b.sp, 900);
    // the base bank is untouched
    assert_eq!(base.pc, 0);
}

#[test]
fn test_syscall_injection_protocol() {
    // inject exit_group-like call 93(7) at trap address 0x1000
    let mut m = SyscallInjection::start(93, vec![7], 0x1000);
    let first = m.on_regs(&bank_at(0x8000));
    let stored = match first {
        DriverCall::StoreRegs(b) => b,
        _ => panic!("expected a register store"),
    };
    assert_eq!(stored.pc, 0x1000);
    assert_eq!(stored.regs[8], 93);
    assert_eq!(stored.regs[0], 7);
    // while the counter sits at the trap, keep stepping
    match m.on_regs(&bank_at(0x1000)) {
        DriverCall::StepThenFetchRegs => {}
        _ => panic!("expected a step"),
    }
    // the counter moved: the call is done, its result is register 0
    let mut after = bank_at(0x1004);
    after.regs[0] = 42;
    match m.on_regs(&after) {
        DriverCall::Done(v) => assert_eq!(v, 42),
        _ => panic!("expected completion"),
    }
}

/// Drive a runner over fake banks: each store is answered by one step
/// whose bank has moved past the trap and carries `results` in register 0.
fn drive_runner(m: &mut PlanRunner, pc: u64, results: &[u64]) -> Result<Vec<RegisterBank>, ProcError> {
    let mut stores = Vec::new();
    let mut idx = 0;
    let mut bank = bank_at(pc);
    loop {
        match m.on_regs(&bank)? {
            RunnerCall::StoreRegs(b) => {
                stores.push(b);
                // after the store the driver steps; report a bank past the
                // trap with the scripted result
                let mut moved = bank_at(pc + 4);
                moved.regs[0] = results[idx];
                idx += 1;
                bank = moved;
            }
            RunnerCall::StepThenFetchRegs => {}
            RunnerCall::FetchRegs => {
                bank = bank_at(pc);
            }
            RunnerCall::Complete => return Ok(stores),
        }
    }
}

#[test]
fn test_plan_runner_redirect_sequence() {
    let pc = 0x7000;
    let mut m = PlanRunner::start(redirect_calls(0x9000), pc);
    let stores = drive_runner(&mut m, pc, &[0, 0, 1, 2]).unwrap();
    assert_eq!(stores.len(), 4);
    assert_eq!(stores[0].regs[8], SYS_CLOSE);
    assert_eq!(stores[0].regs[0], 1);
    assert_eq!(stores[1].regs[8], SYS_CLOSE);
    assert_eq!(stores[1].regs[0], 2);
    assert_eq!(stores[2].regs[8], SYS_OPENAT);
    assert_eq!(stores[2].regs[1], 0x9000);
    assert_eq!(stores[3].regs[8], SYS_OPENAT);
    for s in &stores {
        assert_eq!(s.pc, pc);
    }
    assert_eq!(m.results(), &vec![0, 0, 1, 2]);
}

#[test]
fn test_plan_runner_checks_mapping_failure() {
    let pc = 0x7000;
    let mut m = PlanRunner::start(vec![mmap_anon_call(0, 4096, 3)], pc);
    let r = drive_runner(&mut m, pc, &[NO_FD]);
    assert_eq!(r.err(), Some(ProcError::SyscallInjection));
}

#[test]
fn test_step_out_of_syscall() {
    let mut m = StepOutOfSyscall::start();
    match m.on_regs(&bank_at(0x100)) {
        NudgeCall::StepThenFetchRegs => {}
        _ => panic!("expected a step"),
    }
    match m.on_regs(&bank_at(0x100)) {
        NudgeCall::StepThenFetchRegs => {}
        _ => panic!("expected another step"),
    }
    match m.on_regs(&bank_at(0x104)) {
        NudgeCall::Done => {}
        _ => panic!("expected completion"),
    }
}

#[test]
fn test_patch_syscall_restores_everything() {
    let (mut m, first) = PatchSyscall::start(215, vec![0x5000, 4096]);
    assert!(matches!(first, PatchCall::FetchRegs));
    // initial fetch: the engine saves the bank and probes its counter
    let mut original = bank_at(0x2000);
    original.regs[3] = 1234;
    let peek = m.on_regs(&original);
    match peek {
        PatchCall::PeekText(a) => assert_eq!(a, 0x2000),
        _ => panic!("expected a peek"),
    }
    // the original word comes back; the trap goes in
    let poke = m.on_word(0xaabbccdd);
    match poke {
        PatchCall::PokeText(a, w) => {
            assert_eq!(a, 0x2000);
            assert_eq!(w, 0xd4000001);
        }
        _ => panic!("expected the trap poke"),
    }
    // the prepared bank keeps the program counter in place
    let prepared = match m.on_poked() {
        PatchCall::StoreRegs(b) => b,
        _ => panic!("expected the prepared store"),
    };
    assert_eq!(prepared.pc, 0x2000);
    assert_eq!(prepared.regs[8], 215);
    assert_eq!(prepared.regs[0], 0x5000);
    assert_eq!(prepared.regs[1], 4096);
    assert_eq!(prepared.regs[3], 1234);
    match m.on_stored() {
        PatchCall::StepThenFetchRegs => {}
        _ => panic!("expected the step"),
    }
    // after the step, register 0 is the result; the old word goes back
    let mut after = bank_at(0x2004);
    after.regs[0] = 0;
    match m.on_regs(&after) {
        PatchCall::PokeText(a, w) => {
            assert_eq!(a, 0x2000);
            assert_eq!(w, 0xaabbccdd);
        }
        _ => panic!("expected the restore poke"),
    }
    // and the original bank is restored exactly
    let restored = match m.on_poked() {
        PatchCall::StoreRegs(b) => b,
        _ => panic!("expected the restore store"),
    };
    assert_eq!(restored.pc, 0x2000);
    assert_eq!(restored.regs[3], 1234);
    assert_eq!(restored.regs[8], 0);
    match m.on_stored() {
        PatchCall::Done(v) => assert_eq!(v, 0),
        _ => panic!("expected completion"),
    }
}

#[test]
fn test_bank_codec_roundtrip() {
    let mut b = RegisterBank::zeroed();
    for i in 0..31 {
        b.regs[i] = (i as u64) * 3 + 1;
    }
    b.sp = 0x7fff_0000;
    b.pc = 0x40_0000;
    b.pstate = 0x6000_0000;
    let bytes = encode_bank(&b);
    assert_eq!(bytes.len(), 272);
    let d = decode_bank(&bytes).unwrap();
    assert_eq!(d.regs, b.regs);
    assert_eq!(d.sp, b.sp);
    assert_eq!(d.pc, b.pc);
    assert_eq!(d.pstate, b.pstate);
}

#[test]
fn test_decode_bank_rejects_bad_length() {
    assert!(decode_bank(&[0u8; 100]).is_none());
    assert!(decode_bank(&[0u8; 273]).is_none());
}

#[test]
fn test_svc_pattern_every_slot() {
    let bytes = svc_pattern(1024);
    assert_eq!(bytes.len(), 4096);
    for k in 0..1024 {
        assert_eq!(bytes[4 * k], 0x01);
        assert_eq!(bytes[4 * k + 1], 0x00);
        assert_eq!(bytes[4 * k + 2], 0x00);
        assert_eq!(bytes[4 * k + 3], 0xd4);
    }
}

#[test]
fn test_find_svc_offset_first_match() {
    assert_eq!(find_svc_offset(&[9, 1, 0, 0, 0xd4, 7]), Some(1));
    assert_eq!(find_svc_offset(&[1, 0, 0, 0xd4]), Some(0));
    assert_eq!(find_svc_offset(&[0, 0, 0, 0, 0]), None);
    assert_eq!(find_svc_offset(&[1, 0, 0]), None);
}

#[test]
fn test_decode_current_syscall() {
    let mut b = RegisterBank::zeroed();
    b.regs[8] = 63;
    b.regs[0] = 0;
    assert_eq!(decode_current_syscall(&b, 0xd4000001), Some((63, 0)));
    assert_eq!(decode_current_syscall(&b, 0xd4000000), None);
    assert!(is_pending_stdin_read(&Some((63, 0))));
    assert!(!is_pending_stdin_read(&Some((63, 1))));
    assert!(!is_pending_stdin_read(&Some((64, 0))));
    assert!(!is_pending_stdin_read(&None));
}

#[test]
fn test_decode_writing_to_fd() {
    let mut b = RegisterBank::zeroed();
    b.regs[8] = 64;
    b.regs[0] = 1;
    b.regs[1] = 0xbeef;
    b.regs[2] = 17;
    assert_eq!(decode_writing_to_fd(&b, 1), Some((0xbeef, 17)));
    assert_eq!(decode_writing_to_fd(&b, 2), None);
}

#[test]
fn test_rot13_word_low_byte_only() {
    assert_eq!(rot13_word(0x1122334455667700 | 0x6f), 0x1122334455667700 | 0x62);
    assert_eq!(rot13_word(0x31), 0x31);
}

#[test]
fn test_colorize_payload_exact() {
    let (v, n) = colorize_payload(b"hi");
    assert_eq!(n, 11);
    assert_eq!(v.len(), 16);
    assert_eq!(&v[0..5], &[27, 91, 51, 49, 109]);
    assert_eq!(&v[5..7], b"hi");
    assert_eq!(&v[7..11], &[27, 91, 48, 109]);
    assert_eq!(&v[11..], &[0, 0, 0, 0, 0]);
}

#[test]
fn test_svc_region_addr_above_highest() {
    let maps = vec![
        map_at(0x1000, 0x1000),
        map_at(0x8000, 0x2000),
        map_at(0x4000, 0x1000),
    ];
    assert_eq!(svc_region_addr_for(&maps), Some(0xa000 + 4096));
}

fn map_at(base: u64, size: u64) -> MemoryMap {
    MemoryMap {
        base_address: base,
        size,
        label: String::new(),
        readable: true,
        writable: true,
        executable: false,
        private: true,
        data: Vec::new(),
    }
}

#[test]
fn test_skip_unmap_rules() {
    let m = map_at(0x1000, 0x1000);
    // the region holding the program counter is kept
    assert!(skip_unmap(&m, 0x1800));
    assert!(!skip_unmap(&m, 0x2000));
    // regions of exactly two mebibytes are kept
    let big = map_at(0x100000, 2097152);
    assert!(skip_unmap(&big, 0));
}

#[test]
fn test_inject_bytes_run_empty_payload() {
    // with an empty payload the whole protocol runs without touching any
    // other process: the mapped address is handed through
    let own = nix::unistd::getpid().as_raw();
    let c = ProcessController::new(own);
    let pc = 0x3000;
    let mut m = InjectBytesRun::start(Vec::new(), pc);
    let stored = match m.on_regs(&c, &bank_at(0x9999)).unwrap() {
        OpCall::StoreRegs(b) => b,
        _ => panic!("expected the mmap store"),
    };
    assert_eq!(stored.regs[8], SYS_MMAP);
    assert_eq!(stored.regs[0], 0);
    assert_eq!(stored.regs[1], 0);
    assert_eq!(stored.pc, pc);
    let mut done = bank_at(pc + 4);
    done.regs[0] = 0x5000;
    match m.on_regs(&c, &done).unwrap() {
        OpCall::Done(addr) => assert_eq!(addr, 0x5000),
        _ => panic!("expected completion"),
    }
}

#[test]
fn test_map_fill_run_writable_region() {
    let own = nix::unistd::getpid().as_raw();
    let c = ProcessController::new(own);
    let pc = 0x3000;
    let region = map_at(0xa000, 0x1000);
    let mut m = MapFillRun::start(region, pc);
    let mut stores: Vec<RegisterBank> = Vec::new();
    let mut bank = bank_at(pc);
    let base = loop {
        match m.on_regs(&c, &bank).unwrap() {
            OpCall::StoreRegs(b) => {
                stores.push(b);
                let mut moved = bank_at(pc + 4);
                // munmap returns 0; mmap returns the base address
                moved.regs[0] = if stores.len() == 1 { 0 } else { 0xa000 };
                bank = moved;
            }
            OpCall::StepThenFetchRegs => {}
            OpCall::FetchRegs => {
                bank = bank_at(pc);
            }
            OpCall::Done(a) => break a,
        }
    };
    assert_eq!(base, 0xa000);
    assert_eq!(stores.len(), 2);
    assert_eq!(stores[0].regs[8], SYS_MUNMAP);
    assert_eq!(stores[0].regs[0], 0xa000);
    assert_eq!(stores[0].regs[1], 0x1000);
    assert_eq!(stores[1].regs[8], SYS_MMAP);
    // the remap adds write permission for the payload copy
    assert_eq!(stores[1].regs[2] & 2, 2);
}

#[test]
fn test_controller_release_is_idempotent() {
    let mut c = ProcessController::new(-1);
    assert!(!c.released);
    c.release();
    assert!(c.released);
    c.release();
    assert!(c.released);
}

#[test]
fn test_controller_suppress_detach() {
    let mut c = ProcessController::new(-1);
    c.suppress_detach();
    assert!(!c.detach_on_drop);
    c.release();
    assert!(c.released);
}

#[test]
fn test_attach_error_class() {
    // no such process: attach reports the attach error class
    let c = ProcessController::new(999_999_9);
    match c.attach() {
        Err(ProcError::Attach(_)) => {}
        other => panic!("expected an attach error, got {:?}", other.is_ok()),
    }
}

use process_magic::ops::{RewindRun, TakeoverCall, TakeoverRun};

#[test]
fn test_takeover_machine_injects_path_first() {
    let own = nix::unistd::getpid().as_raw();
    let c = ProcessController::new(own);
    let pc = 0x6000;
    let mut m = TakeoverRun::start(b"/usr/bin/true".to_vec(), false, pc);
    // the target is not inside a syscall: one step, then the counter moves
    match m.on_regs(&c, &bank_at(0x100)).unwrap() {
        TakeoverCall::StepThenFetchRegs => {}
        _ => panic!("expected the first nudge step"),
    }
    match m.on_regs(&c, &bank_at(0x104)).unwrap() {
        TakeoverCall::FetchRegs => {}
        _ => panic!("expected the fetch for the path injection"),
    }
    // the first store is the anonymous mapping for the path and its NUL
    match m.on_regs(&c, &bank_at(0x104)).unwrap() {
        TakeoverCall::StoreRegs(b) => {
            assert_eq!(b.regs[8], SYS_MMAP);
            assert_eq!(b.regs[1], b"/usr/bin/true".len() as u64 + 1);
            assert_eq!(b.pc, pc);
        }
        _ => panic!("expected the path mapping store"),
    }
}

#[test]
fn test_rewind_machine_injects_first_argument() {
    let own = nix::unistd::getpid().as_raw();
    let c = ProcessController::new(own);
    let pc = 0x6000;
    let args = vec![b"prog\0".to_vec(), b"arg\0".to_vec()];
    let mut m = RewindRun::start(args, pc);
    match m.on_regs(&c, &bank_at(0x100)).unwrap() {
        OpCall::StepThenFetchRegs => {}
        _ => panic!("expected the first nudge step"),
    }
    match m.on_regs(&c, &bank_at(0x104)).unwrap() {
        OpCall::FetchRegs => {}
        _ => panic!("expected the fetch for the first argument"),
    }
    match m.on_regs(&c, &bank_at(0x104)).unwrap() {
        OpCall::StoreRegs(b) => {
            assert_eq!(b.regs[8], SYS_MMAP);
            assert_eq!(b.regs[1], 5);
            assert_eq!(b.pc, pc);
        }
        _ => panic!("expected the first argument's mapping store"),
    }
}

use process_magic::ops::ScratchPadRun;

#[test]
fn test_scratch_pad_store_then_done() {
    let own = nix::unistd::getpid().as_raw();
    let c = ProcessController::new(own);
    let pc = 0x6000;
    let mut m = ScratchPadRun::start(0xdead000, pc);
    let stored = match m.on_regs(&c, &bank_at(pc)).unwrap() {
        OpCall::StoreRegs(b) => b,
        _ => panic!("expected the pad mapping store"),
    };
    assert_eq!(stored.regs[8], SYS_MMAP);
    assert_eq!(stored.regs[0], 0xdead000);
    assert_eq!(stored.regs[1], 4096);
    // the mapping result comes back, but the pad fill then fails: the
    // address is not really mapped in this process
    let mut done = bank_at(pc + 4);
    done.regs[0] = 0xdead000;
    assert!(m.on_regs(&c, &done).is_err());
}

use process_magic::exchange::{InSyscallProbe, ProbeCall};

#[test]
fn test_in_syscall_probe() {
    let mut m = InSyscallProbe::start();
    assert!(matches!(m.on_regs(&bank_at(0x500)), ProbeCall::StepThenFetchRegs));
    assert!(matches!(m.on_regs(&bank_at(0x500)), ProbeCall::Decided(true)));
    let mut m2 = InSyscallProbe::start();
    assert!(matches!(m2.on_regs(&bank_at(0x500)), ProbeCall::StepThenFetchRegs));
    assert!(matches!(m2.on_regs(&bank_at(0x504)), ProbeCall::Decided(false)));
}

use process_magic::plans::{server_map_call, unmap_existing_calls, SYS_MPROTECT};

#[test]
fn test_unmap_existing_calls_target_vvar_and_vdso_page() {
    let calls = unmap_existing_calls(0x7000, 0x2000, 0x9000);
    assert_eq!(calls.len(), 2);
    // the page immediately after the [vdso] region
    assert_eq!(calls[0].sysno, SYS_MUNMAP);
    assert_eq!(calls[0].args, vec![0x9000, 4096]);
    // the [vvar] region itself
    assert_eq!(calls[1].sysno, SYS_MUNMAP);
    assert_eq!(calls[1].args, vec![0x7000, 0x2000]);
}

#[test]
fn test_server_map_call_respects_privacy() {
    let mut m = map_at(0x4000, 0x1000);
    m.private = true;
    m.executable = true;
    let call = server_map_call(&m);
    assert_eq!(call.sysno, SYS_MMAP);
    // MAP_PRIVATE | MAP_ANONYMOUS | MAP_FIXED
    assert_eq!(call.args[3], 2 | 32 | 16);
    m.private = false;
    let call2 = server_map_call(&m);
    // MAP_SHARED | MAP_ANONYMOUS | MAP_FIXED
    assert_eq!(call2.args[3], 1 | 32 | 16);
}

#[test]
fn test_map_fill_calls_are_unchecked_except_mmap() {
    let mut m = map_at(0x4000, 0x1000);
    m.writable = false;
    let calls = process_magic::plans::map_fill_calls(&m);
    assert_eq!(calls.len(), 3);
    assert!(!calls[0].expect_mapped);
    assert!(calls[1].expect_mapped);
    assert!(!calls[2].expect_mapped);
    assert_eq!(calls[2].sysno, SYS_MPROTECT);
}

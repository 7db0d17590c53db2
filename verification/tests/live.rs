use process_magic::controller::ProcessController;
use process_magic::maps::{parse_map_line, MemoryMap};
use process_magic::snapshot::{assemble_snapshot, populate_memory, should_populate};
use process_magic::bank::RegisterBank;

use nix::fcntl::{open, OFlag};
use nix::sys::stat::Mode;
use nix::unistd::{getpid, read};

/// Read a whole file through the kernel interface.
fn read_file(path: &str) -> Vec<u8> {
    let fd = open(path, OFlag::O_RDONLY, Mode::empty()).unwrap();
    let mut out = Vec::new();
    let mut buf = [0u8; 4096];
    loop {
        let n = read(&fd, &mut buf).unwrap();
        if n == 0 {
            break;
        }
        out.extend_from_slice(&buf[..n]);
    }
    out
}

/// The map records of this process whose lines parse; the kernel omits the
/// label field entirely for some anonymous regions, and those lines are
/// not map records in the six-field form.
fn own_parsed_maps() -> Vec<MemoryMap> {
    let text = String::from_utf8(read_file("/proc/self/maps")).unwrap();
    let mut out = Vec::new();
    for line in text.split('\n') {
        if line.is_empty() {
            continue;
        }
        if let Ok(m) = parse_map_line(line) {
            out.push(m);
        }
    }
    out
}

#[test]
fn test_populate_own_memory_invariant() {
    let own = getpid().as_raw();
    let c = ProcessController::new(own);
    // keep it quick: only the first few records
    let mut maps = own_parsed_maps();
    maps.truncate(6);
    assert!(!maps.is_empty());
    let skipped = populate_memory(&c, &mut maps);
    for m in &maps {
        if should_populate(m) {
            // filled exactly, or skipped and left empty
            assert!(m.data.len() == m.size as usize || m.data.is_empty());
        } else {
            // an unreadable or `[vvar]` region always has an empty payload
            assert!(m.data.is_empty());
        }
    }
    if skipped == 0 {
        for m in &maps {
            if should_populate(m) {
                assert_eq!(m.data.len(), m.size as usize);
            }
        }
        let snap = assemble_snapshot(maps, &RegisterBank::zeroed());
        assert_eq!(snap.regs.len(), 31);
    }
}

#[test]
fn test_vvar_region_never_populated() {
    let own = getpid().as_raw();
    let c = ProcessController::new(own);
    let mut maps: Vec<MemoryMap> = own_parsed_maps()
        .into_iter()
        .filter(|m| m.label == "[vvar]")
        .collect();
    if maps.is_empty() {
        // no [vvar] mapping on this kernel: synthesize one over a real
        // readable range to show the label alone suppresses the read
        let mut donor = own_parsed_maps()
            .into_iter()
            .find(|m| m.readable)
            .unwrap();
        donor.label = "[vvar]".to_string();
        maps = vec![donor];
    }
    let _ = populate_memory(&c, &mut maps);
    for m in &maps {
        assert!(m.data.is_empty());
    }
}

#[test]
fn test_read_own_memory_exact_count() {
    let own = getpid().as_raw();
    let c = ProcessController::new(own);
    let m = own_parsed_maps()
        .into_iter()
        .find(|m| m.readable)
        .unwrap();
    let bytes = c.read_bytes(m.base_address, 64).unwrap();
    assert_eq!(bytes.len(), 64);
}

#[test]
fn test_read_unmapped_memory_fails() {
    let own = getpid().as_raw();
    let c = ProcessController::new(own);
    // the zero page is never mapped
    assert!(c.read_bytes(0, 16).is_err());
}

use process_magic::ops::{RedirectCall, RedirectRun};
use process_magic::plans::{nul_terminated, SYS_MMAP};

#[test]
fn test_redirect_machine_saves_then_injects_path() {
    let own = getpid().as_raw();
    let c = ProcessController::new(own);
    // a real readable address of this process, so the current-syscall
    // probe can read the word under the reported program counter
    let region = own_parsed_maps()
        .into_iter()
        .find(|m| m.readable)
        .unwrap();
    let mut bank = RegisterBank::zeroed();
    bank.pc = region.base_address;
    let path = nul_terminated(b"/dev/pts/9");
    let path_len = path.len() as u64;
    let mut m = RedirectRun::start(path, 0x6000);
    // no pending terminal read at an ELF header: the bank is saved and the
    // first store maps the path bytes into the target
    match m.on_regs(&c, &bank).unwrap() {
        RedirectCall::StoreRegs(b) => {
            assert_eq!(b.regs[8], SYS_MMAP);
            assert_eq!(b.regs[1], path_len);
            assert_eq!(b.pc, 0x6000);
        }
        RedirectCall::StuffStdinThenStepThenFetchRegs => {
            panic!("an ELF header is not a pending read");
        }
        _ => panic!("expected the path mapping store"),
    }
}

#[test]
fn test_own_process_info_against_kernel() {
    let own = getpid().as_raw();
    let status = String::from_utf8(read_file("/proc/self/status")).unwrap();
    let stat = String::from_utf8(read_file("/proc/self/stat")).unwrap();
    let info = process_magic::procinfo::get_process_info(own, &status, &stat).unwrap();
    assert_eq!(info.pid, own);
    // the kernel's own parent-id field must agree with the direct query
    assert_eq!(info.ppid, nix::unistd::getppid().as_raw());
    assert!(!info.name.is_empty());
}

#[test]
fn test_decimal_rendering_matches_formatter() {
    for n in [0u64, 7, 10, 99, 100, 4095, 4096, 123456789, u64::MAX - 1, u64::MAX] {
        assert_eq!(process_magic::terminals::u64_to_decimal(n), format!("{}", n));
    }
}

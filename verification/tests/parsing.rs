use process_magic::bank::rot13_byte;
use process_magic::errors::ProcError;
use process_magic::maps::{
    parse_byte_range, parse_hex_u64, parse_map_line, parse_memory_maps, parse_permissions,
    split_null_args,
};
use process_magic::procinfo::{get_all_groups, get_process_info, stat_tty_nr, ProcessInfo};
use process_magic::terminals::{normalize_tty, tty_major_minor, tty_path_of, u64_to_decimal};

#[test]
fn test_rot13_byte() {
    assert_eq!(rot13_byte(0x6f), 0x62);
}

#[test]
fn test_parse_memory_map_line() {
    let memory_map = parse_map_line("e4ba32e70000-e4ba3300a000 r-xp 00000000 fc:00 298576                     /usr/lib/aarch64-linux-gnu/libc.so.6\n").unwrap();
    assert_eq!(memory_map.base_address, 0xe4ba32e70000);
    assert_eq!(memory_map.size, 1679360);
    assert!(memory_map.readable);
    assert!(!memory_map.writable);
    assert!(memory_map.executable);
    assert!(memory_map.private);
    assert_eq!(memory_map.label, "/usr/lib/aarch64-linux-gnu/libc.so.6");
}

#[test]
fn test_parse_map_line_empty_label() {
    let m = parse_map_line("e4ba32e70000-e4ba32e71000 rw-p 00000000 00:00 0 ").unwrap();
    assert_eq!(m.label, "");
    assert_eq!(m.size, 4096);
    assert!(m.data.is_empty());
}

#[test]
fn test_parse_map_line_label_keeps_inner_spaces() {
    let m = parse_map_line("1000-2000 rw-p 00000000 00:00 0   /tmp/a b  ").unwrap();
    assert_eq!(m.label, "/tmp/a b");
}

#[test]
fn test_parse_map_line_alignment_invariant() {
    // every accepted record has a page-aligned base and a positive
    // page-aligned size
    let m = parse_map_line("7f0000000000-7f0000003000 r--p 00000000 00:00 0 x").unwrap();
    assert_eq!(m.base_address % 4096, 0);
    assert!(m.size > 0);
    assert_eq!(m.size % 4096, 0);
}

#[test]
fn test_parse_map_line_rejects_unaligned() {
    assert!(parse_map_line("1000-1001 rw-p 00000000 00:00 0 x").is_err());
    assert!(parse_map_line("1001-2000 rw-p 00000000 00:00 0 x").is_err());
}

#[test]
fn test_parse_map_line_rejects_short_line() {
    let r = parse_map_line("1000-2000 rw-p");
    assert!(matches!(r, Err(ProcError::MapParse)));
}

#[test]
fn test_parse_byte_range_exact() {
    assert_eq!(parse_byte_range("1000-3000"), Ok((0x1000, 0x2000)));
}

#[test]
fn test_parse_byte_range_rejects_reversed() {
    assert_eq!(parse_byte_range("3000-1000"), Err(ProcError::MapParse));
    assert_eq!(parse_byte_range("1000-1000"), Err(ProcError::MapParse));
}

#[test]
fn test_parse_byte_range_rejects_garbage() {
    assert!(parse_byte_range("zz-1000").is_err());
    assert!(parse_byte_range("1000").is_err());
}

#[test]
fn test_parse_permissions_flags() {
    assert_eq!(parse_permissions("rwxp"), Ok((true, true, true, true)));
    assert_eq!(parse_permissions("r-x-"), Ok((true, false, true, false)));
    assert_eq!(parse_permissions("----"), Ok((false, false, false, false)));
    assert!(parse_permissions("rw").is_err());
    assert!(parse_permissions("rwxps").is_err());
}

#[test]
fn test_parse_permissions_counts_characters() {
    // four characters, one of them outside ASCII: accepted, with the
    // unmatched flag clear — the field is counted in characters, not bytes
    assert_eq!(parse_permissions("r-xé"), Ok((true, false, true, false)));
    assert_eq!(parse_permissions("éééé"), Ok((false, false, false, false)));
    // two characters that happen to fill four bytes are still two characters
    assert!(parse_permissions("éé").is_err());
}

#[test]
fn test_parse_hex_u64_values() {
    assert_eq!(parse_hex_u64(b"ff"), Some(255));
    assert_eq!(parse_hex_u64(b"+ff"), Some(255));
    assert_eq!(parse_hex_u64(b"0"), Some(0));
    assert_eq!(parse_hex_u64(b"DeadBeef"), Some(0xdeadbeef));
    assert_eq!(parse_hex_u64(b"ffffffffffffffff"), Some(u64::MAX));
    assert_eq!(parse_hex_u64(b"1ffffffffffffffff"), None);
    assert_eq!(parse_hex_u64(b""), None);
    assert_eq!(parse_hex_u64(b"+"), None);
    assert_eq!(parse_hex_u64(b"12g4"), None);
}

#[test]
fn test_parse_memory_maps_two_lines() {
    let text = "1000-2000 r--p 00000000 00:00 0 a\n3000-5000 rw-p 00000000 00:00 0 b\n";
    let v = parse_memory_maps(text).unwrap();
    assert_eq!(v.len(), 2);
    assert_eq!(v[0].base_address, 0x1000);
    assert_eq!(v[0].label, "a");
    assert_eq!(v[1].size, 0x2000);
    assert!(v[1].writable);
}

#[test]
fn test_parse_memory_maps_rejects_bad_line() {
    let text = "1000-2000 r--p 00000000 00:00 0 a\nnot a map line\n";
    assert_eq!(parse_memory_maps(text).err(), Some(ProcError::MapParse));
}

#[test]
fn test_normalize_tty_passthrough() {
    assert_eq!(normalize_tty("/dev/pts/3").unwrap(), "/dev/pts/3");
}

#[test]
fn test_normalize_tty_prefixes() {
    assert_eq!(normalize_tty("pts/4").unwrap(), "/dev/pts/4");
}

#[test]
fn test_normalize_tty_rejects_other() {
    assert_eq!(normalize_tty("tty7").err(), Some(ProcError::Protocol));
    assert_eq!(normalize_tty("").err(), Some(ProcError::Protocol));
}

#[test]
fn test_tty_major_minor_decode() {
    // the packed form of the pseudo-terminal pts/3
    let tty_nr = (136 << 8) | 3;
    assert_eq!(tty_major_minor(tty_nr), (136, 3));
    assert_eq!(tty_path_of(tty_nr).unwrap(), "/dev/pts/3");
}

#[test]
fn test_tty_path_none_for_other_major() {
    // major 4 is a virtual console, not a pseudo-terminal
    let tty_nr = (4 << 8) | 1;
    assert_eq!(tty_path_of(tty_nr), None);
}

#[test]
fn test_u64_to_decimal_values() {
    assert_eq!(u64_to_decimal(0), "0");
    assert_eq!(u64_to_decimal(42), "42");
    assert_eq!(u64_to_decimal(1679360), "1679360");
    assert_eq!(u64_to_decimal(u64::MAX), "18446744073709551615");
}

#[test]
fn test_split_null_args_keeps_nuls() {
    let args = split_null_args(b"ab\0c\0");
    assert_eq!(args.len(), 2);
    assert_eq!(args[0], b"ab\0".to_vec());
    assert_eq!(args[1], b"c\0".to_vec());
}

#[test]
fn test_split_null_args_drops_trailing() {
    let args = split_null_args(b"ab\0xyz");
    assert_eq!(args.len(), 1);
    assert_eq!(args[0], b"ab\0".to_vec());
}

#[test]
fn test_stat_tty_nr_field_seven() {
    assert_eq!(stat_tty_nr("1 (x) S 0 0 0 1028 9 9"), Ok(1028));
}

#[test]
fn test_stat_tty_nr_spaced_command() {
    // the parenthesised command name containing a space shifts the fields
    assert_eq!(stat_tty_nr("123 (ba sh) R 1 2 3 34819 9"), Ok(34819));
}

#[test]
fn test_stat_tty_nr_rejects_short() {
    assert!(stat_tty_nr("1 (x) S").is_err());
    assert!(stat_tty_nr("").is_err());
}

#[test]
fn test_get_process_info_fields() {
    let status = "Name:\tbash\nUmask:\t0022\nPPid:\t10\nNSpgid:\t20\nUid:\t1000\t1000\t1000\t1000\n";
    let stat = "123 (bash) S 10 20 20 34819 0 0";
    let info = get_process_info(123, status, stat).unwrap();
    assert_eq!(info.name, "bash");
    assert_eq!(info.pid, 123);
    assert_eq!(info.ppid, 10);
    assert_eq!(info.pgid, 20);
    assert_eq!(info.uid, 1000);
    assert_eq!(info.tty.as_deref(), Some("/dev/pts/3"));
}

#[test]
fn test_get_process_info_no_tty() {
    let status = "Name:\tinit\nPPid:\t0\nNSpgid:\t1\nUid:\t0\t0\t0\t0\n";
    let stat = "1 (init) S 0 1 1 0";
    let info = get_process_info(1, status, stat).unwrap();
    assert_eq!(info.tty, None);
}

#[test]
fn test_get_process_info_rejects_missing_key() {
    let status = "Name:\tx\nPPid:\t0\n";
    let stat = "1 (x) S 0 0 0 0";
    assert_eq!(
        get_process_info(1, status, stat).err(),
        Some(ProcError::Protocol)
    );
}

fn info(pid: i32, pgid: i32, name: &str) -> ProcessInfo {
    ProcessInfo {
        name: name.to_string(),
        pid,
        ppid: 0,
        pgid,
        uid: 0,
        tty: None,
    }
}

#[test]
fn test_get_all_groups_partitions_by_group_id() {
    // three processes in two groups: the buckets are keyed by group id and
    // partition the processes, keeping their order
    let groups = get_all_groups(vec![
        info(10, 5, "a"),
        info(11, 7, "b"),
        info(12, 5, "c"),
    ]);
    assert_eq!(groups.len(), 2);
    let five = &groups[&5];
    assert_eq!(five.len(), 2);
    assert_eq!(five[0].name, "a");
    assert_eq!(five[0].pid, 10);
    assert_eq!(five[1].name, "c");
    assert_eq!(groups[&7].len(), 1);
    assert_eq!(groups[&7][0].pid, 11);
    // no bucket is keyed by a process id
    assert!(!groups.contains_key(&10));
    assert!(!groups.contains_key(&12));
}

#[test]
fn test_error_description() {
    assert_eq!(
        ProcError::MapParse.describe(),
        "could not parse memory-map record"
    );
}

#[test]
fn test_describe_map_record() {
    let m = parse_map_line("1000-3000 r-xp 00000000 00:00 0 /bin/a").unwrap();
    assert_eq!(
        m.describe(),
        "mapping from 0x1000 to 0x3000 (size=8192) r-xp (/bin/a)"
    );
    let anon = parse_map_line("1000-2000 rw-- 00000000 00:00 0 ").unwrap();
    assert_eq!(anon.describe(), "mapping from 0x1000 to 0x2000 (size=4096) rw--");
}

#[test]
fn test_hex_rendering_matches_formatter() {
    for n in [0u64, 9, 10, 15, 16, 255, 0xdeadbeef, u64::MAX] {
        assert_eq!(process_magic::terminals::u64_to_hex(n), format!("{:x}", n));
    }
}

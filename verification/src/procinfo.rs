//! Per-process attribute extraction from the kernel's status and stat
//! records, and the grouping used by the process listings.
//!
//! The status record is `name<TAB>value` lines; the stat record is
//! whitespace-separated fields whose second — the parenthesised command
//! name — may itself contain whitespace, so the controlling-terminal field
//! is found by first skipping to the token that closes the parenthesis.

use vstd::prelude::*;
use std::collections::HashMap;

use crate::errors::ProcError;
use crate::maps::{bytes_of, is_ws, idx_where, ws_pred, lemma_idx_where_unique, spec_lines, nl_pred, sub_bytes};
use crate::terminals::{spec_tty_major, spec_tty_minor, spec_decimal_digits, PTY_MAJOR};
use vstd::utf8::{valid_utf8, decode_utf8};

verus! {

/// The whitespace-separated tokens of a byte text; runs of whitespace
/// separate tokens and produce none of their own.
pub open spec fn spec_tokens(s: Seq<u8>) -> Seq<Seq<u8>>
    decreases s.len(),
{
    if s.len() == 0 {
        Seq::empty()
    } else if is_ws(s[0]) {
        spec_tokens(s.drop_first())
    } else {
        let i = idx_where(s, ws_pred());
        if 1 <= i < s.len() {
            seq![s.take(i)] + spec_tokens(s.subrange(i, s.len() as int))
        } else {
            seq![s]
        }
    }
}

/// Tokenize the tail of `b` starting at `from`.
fn tokens_from(b: &[u8], from: usize) -> (r: Vec<Vec<u8>>)
    requires
        from <= b@.len(),
    ensures
        r@.map_values(|v: Vec<u8>| v@) == spec_tokens(b@.subrange(from as int, b@.len() as int)),
    decreases b@.len() - from,
{
    let mut p: usize = from;
    while p < b.len() && crate::maps::is_ws_byte(b[p])
        invariant
            from <= p <= b@.len(),
            spec_tokens(b@.subrange(from as int, b@.len() as int)) == spec_tokens(
                b@.subrange(p as int, b@.len() as int),
            ),
        decreases b@.len() - p,
    {
        proof {
            let cur = b@.subrange(p as int, b@.len() as int);
            assert(cur[0] == b@[p as int]);
            assert(cur.drop_first() =~= b@.subrange(p + 1, b@.len() as int));
        }
        p = p + 1;
    }
    let ghost cur = b@.subrange(p as int, b@.len() as int);
    if p == b.len() {
        proof {
            assert(cur.len() == 0);
        }
        return Vec::new();
    }
    proof {
        assert(cur[0] == b@[p as int]);
        assert(!is_ws(cur[0]));
    }
    let k = crate::maps::find_ws(b, p);
    let head = sub_bytes(b, p, k);
    proof {
        assert(head@ =~= cur.take(k - p));
        assert(idx_where(cur, ws_pred()) == k - p);
        crate::maps::lemma_idx_where(cur, ws_pred());
        if k == p {
            assert(ws_pred()(cur[0]));
        }
        assert(k > p);
    }
    if k == b.len() {
        let mut r: Vec<Vec<u8>> = Vec::new();
        r.push(head);
        proof {
            assert(head@ =~= cur);
            assert(spec_tokens(cur) == seq![cur]);
            assert(r@.map_values(|v: Vec<u8>| v@) =~= seq![cur]);
        }
        r
    } else {
        let mut r = tokens_from(b, k);
        r.insert(0, head);
        proof {
            assert(b@.subrange(k as int, b@.len() as int) =~= cur.subrange(
                k - p,
                cur.len() as int,
            ));
            assert(r@.map_values(|v: Vec<u8>| v@) =~= seq![cur.take(k - p)] + spec_tokens(
                cur.subrange(k - p, cur.len() as int),
            ));
        }
        r
    }
}

/// Tokenize a byte text at whitespace.
pub fn tokens(b: &[u8]) -> (r: Vec<Vec<u8>>)
    ensures
        r@.map_values(|v: Vec<u8>| v@) == spec_tokens(b@),
{
    let r = tokens_from(b, 0);
    proof {
        assert(b@.subrange(0, b@.len() as int) =~= b@);
    }
    r
}

/// The value of one decimal digit byte.
pub open spec fn dec_digit(b: u8) -> Option<u8> {
    if 48 <= b && b <= 57 {
        Some((b - 48) as u8)
    } else {
        None
    }
}

/// Every byte is a decimal digit.
pub open spec fn all_dec(s: Seq<u8>) -> bool {
    forall|i: int| 0 <= i < s.len() ==> #[trigger] dec_digit(s[i]) is Some
}

/// The number denoted by decimal digits, most significant first.
pub open spec fn dec_value(s: Seq<u8>) -> nat
    decreases s.len(),
{
    if s.len() == 0 {
        0
    } else {
        dec_value(s.drop_last()) * 10 + (match dec_digit(s.last()) {
            Some(d) => d as nat,
            None => 0,
        })
    }
}

/// What parsing an unsigned decimal field yields: optional leading `+`,
/// one or more digits, overflow past the machine word rejected.
pub open spec fn spec_parse_dec_u64(s: Seq<u8>) -> Option<u64> {
    let t = if s.len() > 0 && s[0] == 43 {
        s.drop_first()
    } else {
        s
    };
    if t.len() > 0 && all_dec(t) && dec_value(t) <= u64::MAX {
        Some(dec_value(t) as u64)
    } else {
        None
    }
}

/// What parsing a signed 32-bit decimal field yields: an optional sign,
/// one or more digits, the signed 32-bit range enforced.
pub open spec fn spec_parse_i32_dec(s: Seq<u8>) -> Option<i32> {
    if s.len() > 0 && s[0] == 45 {
        let t = s.drop_first();
        if t.len() > 0 && all_dec(t) && dec_value(t) <= 0x8000_0000 {
            Some((0 - dec_value(t)) as i32)
        } else {
            None
        }
    } else {
        match spec_parse_dec_u64(s) {
            Some(v) => if v <= i32::MAX as u64 {
                Some(v as i32)
            } else {
                None
            },
            None => None,
        }
    }
}

/// What parsing an unsigned 32-bit decimal field yields.
pub open spec fn spec_parse_u32_dec(s: Seq<u8>) -> Option<u32> {
    match spec_parse_dec_u64(s) {
        Some(v) => if v <= u32::MAX as u64 {
            Some(v as u32)
        } else {
            None
        },
        None => None,
    }
}

proof fn lemma_dec_value_step(s: Seq<u8>, i: int)
    requires
        0 <= i < s.len(),
    ensures
        dec_value(s.take(i + 1)) == dec_value(s.take(i)) * 10 + (match dec_digit(s[i]) {
            Some(d) => d as nat,
            None => 0,
        }),
{
    assert(s.take(i + 1).drop_last() =~= s.take(i));
    assert(s.take(i + 1).last() == s[i]);
}

proof fn lemma_dec_value_grows(s: Seq<u8>, i: int)
    requires
        0 <= i < s.len(),
        dec_value(s.take(i)) > u64::MAX,
    ensures
        dec_value(s.take(i + 1)) > u64::MAX,
{
    lemma_dec_value_step(s, i);
    assert(dec_value(s.take(i)) * 10 >= dec_value(s.take(i)));
}

/// Parse a whole byte slice as an unsigned decimal number: optional
/// leading `+`, at least one digit, overflow rejected.
pub fn parse_dec_u64(digits: &[u8]) -> (r: Option<u64>)
    ensures
        r == spec_parse_dec_u64(digits@),
{
    let ghost whole = digits@;
    let mut i: usize = 0;
    if digits.len() > 0 && digits[0] == 43 {
        i = 1;
    }
    let ghost t = if whole.len() > 0 && whole[0] == 43 {
        whole.drop_first()
    } else {
        whole
    };
    let start: usize = i;
    proof {
        assert(t =~= whole.subrange(start as int, whole.len() as int));
    }
    if i == digits.len() {
        return None;
    }
    let mut v: u64 = 0;
    let mut overflow: bool = false;
    while i < digits.len()
        invariant
            start <= i <= digits.len(),
            start <= 1,
            whole == digits@,
            t == whole.subrange(start as int, whole.len() as int),
            t == (if whole.len() > 0 && whole[0] == 43 {
                whole.drop_first()
            } else {
                whole
            }),
            all_dec(t.take(i - start)),
            !overflow ==> v == dec_value(t.take(i - start)),
            overflow ==> dec_value(t.take(i - start)) > u64::MAX,
        decreases digits.len() - i,
    {
        let ghost k = i - start;
        proof {
            assert(whole.subrange(start as int, whole.len() as int)[k] == whole[k + start]);
            assert(t[k] == whole[i as int]);
        }
        let b = digits[i];
        if b < 48 || b > 57 {
            proof {
                assert(dec_digit(t[k]) is None);
                assert(!all_dec(t));
            }
            return None;
        }
        let d = b - 48;
        proof {
            lemma_dec_value_step(t, k);
            assert(t.take(k + 1)[k] == t[k]);
            assert(forall|j: int| 0 <= j < k ==> t.take(k + 1)[j] == #[trigger] t.take(k)[j]);
        }
        if overflow {
            proof {
                lemma_dec_value_grows(t, k);
            }
        } else if v > (u64::MAX - d as u64) / 10 {
            proof {
                assert(dec_value(t.take(k)) * 10 + d > u64::MAX) by {
                    assert(v >= (u64::MAX - d as u64) / 10 + 1);
                };
            }
            overflow = true;
        } else {
            proof {
                assert(v * 10 + d <= u64::MAX) by {
                    assert(v <= (u64::MAX - d as u64) / 10);
                };
            }
            v = v * 10 + d as u64;
        }
        i = i + 1;
    }
    proof {
        assert(t.take(i - start) =~= t);
    }
    if overflow {
        None
    } else {
        Some(v)
    }
}

/// Parse a signed 32-bit decimal number.
pub fn parse_i32_dec(b: &[u8]) -> (r: Option<i32>)
    ensures
        r == spec_parse_i32_dec(b@),
{
    if b.len() > 0 && b[0] == 45 {
        let rest = sub_bytes(b, 1, b.len());
        proof {
            assert(rest@ =~= b@.drop_first());
        }
        if rest.len() > 0 && rest[0] == 43 {
            proof {
                assert(dec_digit(rest@[0]) is None);
                assert(!all_dec(rest@));
            }
            return None;
        }
        match parse_dec_u64(rest.as_slice()) {
            Some(v) => {
                if v <= 0x8000_0000 {
                    Some((-(v as i64)) as i32)
                } else {
                    None
                }
            },
            None => None,
        }
    } else {
        match parse_dec_u64(b) {
            Some(v) => {
                if v <= i32::MAX as u64 {
                    Some(v as i32)
                } else {
                    None
                }
            },
            None => None,
        }
    }
}

/// Parse an unsigned 32-bit decimal number.
pub fn parse_u32_dec(b: &[u8]) -> (r: Option<u32>)
    ensures
        r == spec_parse_u32_dec(b@),
{
    match parse_dec_u64(b) {
        Some(v) => {
            if v <= u32::MAX as u64 {
                Some(v as u32)
            } else {
                None
            }
        },
        None => None,
    }
}

/// What one status line offers for the given key: the text after
/// `key:<TAB>` when the line starts so.
pub open spec fn spec_line_value(line: Seq<u8>, key: Seq<u8>) -> Option<Seq<u8>> {
    if line.len() >= key.len() + 2 && line.subrange(0, key.len() as int) == key && line[key.len()
        as int] == 58 && line[key.len() as int + 1] == 9 {
        Some(line.subrange(key.len() as int + 2, line.len() as int))
    } else {
        None
    }
}

/// The first line's value for the key, over all lines.
pub open spec fn spec_status_value(lines: Seq<Seq<u8>>, key: Seq<u8>) -> Option<Seq<u8>>
    decreases lines.len(),
{
    if lines.len() == 0 {
        None
    } else {
        match spec_line_value(lines[0], key) {
            Some(v) => Some(v),
            None => spec_status_value(lines.drop_first(), key),
        }
    }
}

/// Whether one line starts with `key:<TAB>`, and the value if so.
fn line_value(line: &[u8], key: &[u8]) -> (r: Option<Vec<u8>>)
    ensures
        match r {
            Some(v) => spec_line_value(line@, key@) == Some(v@),
            None => spec_line_value(line@, key@) is None,
        },
{
    if line.len() < 2 || line.len() - 2 < key.len() {
        return None;
    }
    let mut i: usize = 0;
    while i < key.len()
        invariant
            i <= key@.len(),
            line@.len() >= key@.len() + 2,
            forall|j: int| 0 <= j < i ==> line@[j] == key@[j],
        decreases key@.len() - i,
    {
        if line[i] != key[i] {
            proof {
                if line@.subrange(0, key@.len() as int) == key@ {
                    assert(line@.subrange(0, key@.len() as int)[i as int] == line@[i as int]);
                }
            }
            return None;
        }
        i = i + 1;
    }
    proof {
        assert(line@.subrange(0, key@.len() as int) =~= key@);
    }
    if line[key.len()] == 58 && line[key.len() + 1] == 9 {
        Some(sub_bytes(line, key.len() + 2, line.len()))
    } else {
        None
    }
}

/// Look a key up in a status text: the value of the first `key:<TAB>value`
/// line.
pub fn status_value(text: &str, key: &[u8]) -> (r: Option<Vec<u8>>)
    ensures
        match r {
            Some(v) => spec_status_value(spec_lines(bytes_of(text)), key@) == Some(v@),
            None => spec_status_value(spec_lines(bytes_of(text)), key@) is None,
        },
{
    let b = text.as_bytes();
    proof {
        assert(b@.subrange(0, b@.len() as int) =~= b@);
    }
    status_value_from(b, 0, key)
}

fn status_value_from(b: &[u8], from: usize, key: &[u8]) -> (r: Option<Vec<u8>>)
    requires
        from <= b@.len(),
    ensures
        match r {
            Some(v) => spec_status_value(
                spec_lines(b@.subrange(from as int, b@.len() as int)),
                key@,
            ) == Some(v@),
            None => spec_status_value(
                spec_lines(b@.subrange(from as int, b@.len() as int)),
                key@,
            ) is None,
        },
    decreases b@.len() - from,
{
    let ghost sub = b@.subrange(from as int, b@.len() as int);
    if from == b.len() {
        proof {
            assert(sub.len() == 0);
        }
        return None;
    }
    let mut k: usize = from;
    while k < b.len() && b[k] != 10
        invariant
            from <= k <= b@.len(),
            forall|j: int| from <= j < k ==> !(nl_pred()(#[trigger] b@[j])),
        decreases b@.len() - k,
    {
        k = k + 1;
    }
    proof {
        assert forall|j: int| 0 <= j < k - from implies !(nl_pred()(#[trigger] sub[j])) by {
            assert(sub[j] == b@[from + j]);
        }
        if k < b.len() {
            assert(sub[k - from] == b@[k as int]);
        }
        lemma_idx_where_unique(sub, nl_pred(), k - from);
        if k == b.len() {
            assert(spec_lines(sub) =~= seq![sub]);
        } else {
            assert(spec_lines(sub) =~= seq![sub.take(k - from)] + spec_lines(
                sub.subrange(k - from + 1, sub.len() as int),
            ));
        }
    }
    let line = sub_bytes(b, from, k);
    proof {
        assert(line@ =~= sub.take(k - from));
        if k == b.len() {
            assert(line@ =~= sub);
        }
        assert(spec_lines(sub)[0] == line@);
        if k < b.len() {
            assert(spec_lines(sub).drop_first() =~= spec_lines(
                sub.subrange(k - from + 1, sub.len() as int),
            ));
            assert(b@.subrange(k + 1, b@.len() as int) =~= sub.subrange(
                k - from + 1,
                sub.len() as int,
            ));
        } else {
            assert(spec_lines(sub).drop_first() =~= Seq::<Seq<u8>>::empty());
        }
    }
    match line_value(line.as_slice(), key) {
        Some(v) => {
            proof {
                assert(spec_lines(sub).len() > 0);
                assert(spec_status_value(spec_lines(sub), key@) == Some(v@));
            }
            Some(v)
        },
        None => {
            if k == b.len() {
                proof {
                    assert(spec_status_value(Seq::<Seq<u8>>::empty(), key@) is None);
                    assert(spec_status_value(spec_lines(sub), key@) is None);
                }
                None
            } else {
                status_value_from(b, k + 1, key)
            }
        },
    }
}

/// The index, at or after `i`, of the first token that closes the
/// parenthesised command name.
pub open spec fn first_close_paren(ts: Seq<Seq<u8>>, i: int) -> int
    decreases ts.len() - i,
{
    if i < 0 || i >= ts.len() {
        i
    } else if ts[i].len() > 0 && ts[i].last() == 41 {
        i
    } else {
        first_close_paren(ts, i + 1)
    }
}

/// What the stat record's controlling-terminal field holds: the seventh
/// field, counting the whole parenthesised command name as the second.
pub open spec fn spec_stat_tty_nr(s: Seq<u8>) -> Option<i32> {
    let ts = spec_tokens(s);
    if ts.len() < 2 {
        None
    } else {
        let i = first_close_paren(ts, 1);
        let idx = 6 + (i - 1);
        if i < ts.len() && idx < ts.len() {
            spec_parse_i32_dec(ts[idx])
        } else {
            None
        }
    }
}

/// Extract the controlling-terminal device number from a stat text.
pub fn stat_tty_nr(text: &str) -> (r: Result<i32, ProcError>)
    ensures
        match spec_stat_tty_nr(bytes_of(text)) {
            Some(v) => r == Ok::<i32, ProcError>(v),
            None => r == Err::<i32, ProcError>(ProcError::Protocol),
        },
{
    let b = text.as_bytes();
    let ts = tokens(b);
    let ghost tss = spec_tokens(b@);
    if ts.len() < 2 {
        return Err(ProcError::Protocol);
    }
    let mut i: usize = 1;
    while i < ts.len() && !(ts[i].len() > 0 && ts[i][ts[i].len() - 1] == 41)
        invariant
            1 <= i <= ts@.len(),
            tss == ts@.map_values(|v: Vec<u8>| v@),
            first_close_paren(tss, 1) == first_close_paren(tss, i as int),
        decreases ts@.len() - i,
    {
        proof {
            assert(tss[i as int] == ts@[i as int]@);
        }
        i = i + 1;
    }
    proof {
        if i < ts.len() {
            assert(tss[i as int] == ts@[i as int]@);
            assert(first_close_paren(tss, i as int) == i);
        } else {
            assert(first_close_paren(tss, i as int) == i);
        }
    }
    if i == ts.len() {
        return Err(ProcError::Protocol);
    }
    if i - 1 > usize::MAX - 6 {
        return Err(ProcError::Protocol);
    }
    let idx = 6 + (i - 1);
    if idx >= ts.len() {
        return Err(ProcError::Protocol);
    }
    proof {
        assert(tss[idx as int] == ts@[idx as int]@);
    }
    match parse_i32_dec(ts[idx].as_slice()) {
        Some(v) => Ok(v),
        None => Err(ProcError::Protocol),
    }
}

} // verus!

verus! {

/// The attributes shown for one process.
pub struct ProcessInfo {
    pub name: String,
    pub pid: i32,
    pub ppid: i32,
    pub pgid: i32,
    pub uid: u32,
    pub tty: Option<String>,
}

/// The `Name` key.
pub open spec fn name_key() -> Seq<u8> {
    seq![78u8, 97u8, 109u8, 101u8]
}

/// The `PPid` key.
pub open spec fn ppid_key() -> Seq<u8> {
    seq![80u8, 80u8, 105u8, 100u8]
}

/// The `NSpgid` key.
pub open spec fn pgid_key() -> Seq<u8> {
    seq![78u8, 83u8, 112u8, 103u8, 105u8, 100u8]
}

/// The `Uid` key.
pub open spec fn uid_key() -> Seq<u8> {
    seq![85u8, 105u8, 100u8]
}

fn name_key_bytes() -> (r: Vec<u8>)
    ensures
        r@ =~= name_key(),
{
    let mut v: Vec<u8> = Vec::new();
    v.push(78);
    v.push(97);
    v.push(109);
    v.push(101);
    v
}

fn ppid_key_bytes() -> (r: Vec<u8>)
    ensures
        r@ =~= ppid_key(),
{
    let mut v: Vec<u8> = Vec::new();
    v.push(80);
    v.push(80);
    v.push(105);
    v.push(100);
    v
}

fn pgid_key_bytes() -> (r: Vec<u8>)
    ensures
        r@ =~= pgid_key(),
{
    let mut v: Vec<u8> = Vec::new();
    v.push(78);
    v.push(83);
    v.push(112);
    v.push(103);
    v.push(105);
    v.push(100);
    v
}

fn uid_key_bytes() -> (r: Vec<u8>)
    ensures
        r@ =~= uid_key(),
{
    let mut v: Vec<u8> = Vec::new();
    v.push(85);
    v.push(105);
    v.push(100);
    v
}

/// The attributes one status text and one stat text denote, before the
/// name is decoded to text.
pub ghost struct InfoSpec {
    pub name: Seq<u8>,
    pub ppid: i32,
    pub pgid: i32,
    pub uid: u32,
    pub tty_nr: i32,
}

/// What attribute extraction yields from a status text and a stat text:
/// the `Name` value as bytes, the `PPid` and `NSpgid` values in decimal,
/// the first token of the `Uid` value in decimal, and the stat record's
/// controlling-terminal field.
pub open spec fn spec_process_info(st: Seq<u8>, stat: Seq<u8>) -> Option<InfoSpec> {
    let lines = spec_lines(st);
    match spec_status_value(lines, name_key()) {
        None => None,
        Some(name) => match spec_status_value(lines, ppid_key()) {
            None => None,
            Some(ppid_v) => match spec_status_value(lines, pgid_key()) {
                None => None,
                Some(pgid_v) => match spec_status_value(lines, uid_key()) {
                    None => None,
                    Some(uid_v) => {
                        let uid_ts = spec_tokens(uid_v);
                        if uid_ts.len() == 0 {
                            None
                        } else {
                            match (
                                spec_parse_i32_dec(ppid_v),
                                spec_parse_i32_dec(pgid_v),
                                spec_parse_u32_dec(uid_ts[0]),
                                spec_stat_tty_nr(stat),
                            ) {
                                (Some(ppid), Some(pgid), Some(uid), Some(tty_nr)) => Some(
                                    InfoSpec { name, ppid, pgid, uid, tty_nr },
                                ),
                                _ => None,
                            }
                        }
                    },
                },
            },
        },
    }
}

/// Extract one process's attributes from its status and stat texts.
///
/// The controlling terminal is reported as `/dev/pts/` and the minor
/// number when the recorded major number is the pseudo-terminal major, and
/// as absent otherwise.
pub fn get_process_info(pid: i32, status_text: &str, stat_text: &str) -> (r: Result<
    ProcessInfo,
    ProcError,
>)
    ensures
        match spec_process_info(bytes_of(status_text), bytes_of(stat_text)) {
            Some(info) => match r {
                Ok(p) => {
                    &&& valid_utf8(info.name) && p.name@ == decode_utf8(info.name)
                    &&& p.pid == pid
                    &&& p.ppid == info.ppid
                    &&& p.pgid == info.pgid
                    &&& p.uid == info.uid
                    &&& (spec_tty_major(info.tty_nr) == PTY_MAJOR && spec_tty_minor(info.tty_nr)
                        >= 0 ==> (p.tty matches Some(s) && s@ == "/dev/pts/"@
                        + spec_decimal_digits(spec_tty_minor(info.tty_nr) as nat)))
                    &&& (spec_tty_major(info.tty_nr) != PTY_MAJOR || spec_tty_minor(info.tty_nr)
                        < 0 ==> p.tty is None)
                },
                Err(e) => !valid_utf8(info.name) && e == ProcError::Protocol,
            },
            None => r == Err::<ProcessInfo, ProcError>(ProcError::Protocol),
        },
{
    let nk = name_key_bytes();
    let name_bytes = match status_value(status_text, nk.as_slice()) {
        Some(v) => v,
        None => {
            return Err(ProcError::Protocol);
        },
    };
    let pk = ppid_key_bytes();
    let ppid_bytes = match status_value(status_text, pk.as_slice()) {
        Some(v) => v,
        None => {
            return Err(ProcError::Protocol);
        },
    };
    let gk = pgid_key_bytes();
    let pgid_bytes = match status_value(status_text, gk.as_slice()) {
        Some(v) => v,
        None => {
            return Err(ProcError::Protocol);
        },
    };
    let uk = uid_key_bytes();
    let uid_bytes = match status_value(status_text, uk.as_slice()) {
        Some(v) => v,
        None => {
            return Err(ProcError::Protocol);
        },
    };
    let uid_tokens = tokens(uid_bytes.as_slice());
    if uid_tokens.len() == 0 {
        return Err(ProcError::Protocol);
    }
    let ppid = match parse_i32_dec(ppid_bytes.as_slice()) {
        Some(v) => v,
        None => {
            return Err(ProcError::Protocol);
        },
    };
    let pgid = match parse_i32_dec(pgid_bytes.as_slice()) {
        Some(v) => v,
        None => {
            return Err(ProcError::Protocol);
        },
    };
    proof {
        assert(uid_tokens@.map_values(|v: Vec<u8>| v@)[0] == uid_tokens@[0]@);
    }
    let uid = match parse_u32_dec(uid_tokens[0].as_slice()) {
        Some(v) => v,
        None => {
            return Err(ProcError::Protocol);
        },
    };
    let tty_nr = match stat_tty_nr(stat_text) {
        Ok(v) => v,
        Err(e) => {
            return Err(e);
        },
    };
    let name = match crate::maps::string_from_utf8(name_bytes) {
        Ok(s) => s,
        Err(_) => {
            return Err(ProcError::Protocol);
        },
    };
    let tty = crate::terminals::tty_path_of(tty_nr);
    Ok(ProcessInfo { name, pid, ppid, pgid, uid, tty })
}

/// The mathematical content of a process record.
pub ghost struct InfoV {
    pub name: Seq<char>,
    pub pid: i32,
    pub ppid: i32,
    pub pgid: i32,
    pub uid: u32,
    pub tty: Option<Seq<char>>,
}

impl View for ProcessInfo {
    type V = InfoV;

    open spec fn view(&self) -> InfoV {
        InfoV {
            name: self.name@,
            pid: self.pid,
            ppid: self.ppid,
            pgid: self.pgid,
            uid: self.uid,
            tty: match self.tty {
                Some(t) => Some(t@),
                None => None,
            },
        }
    }
}

/// The record contents of a process list.
pub open spec fn views_of(s: Seq<ProcessInfo>) -> Seq<InfoV> {
    s.map_values(|p: ProcessInfo| p@)
}

/// The processes of `s` whose group id is `k`, in order.
pub open spec fn spec_group(s: Seq<InfoV>, k: i32) -> Seq<InfoV>
    decreases s.len(),
{
    if s.len() == 0 {
        Seq::empty()
    } else {
        spec_group(s.drop_last(), k) + (if s.last().pgid == k {
            seq![s.last()]
        } else {
            Seq::empty()
        })
    }
}

/// No process of `s` belongs to group `k`.
pub open spec fn group_absent(s: Seq<InfoV>, k: i32) -> bool {
    forall|j: int| 0 <= j < s.len() ==> (#[trigger] s[j]).pgid != k
}

/// A group of an id that occurs nowhere is empty.
pub proof fn lemma_group_absent(s: Seq<InfoV>, k: i32)
    requires
        group_absent(s, k),
    ensures
        spec_group(s, k) == Seq::<InfoV>::empty(),
    decreases s.len(),
{
    if s.len() > 0 {
        assert(s.last() == s[s.len() - 1]);
        assert forall|j: int| 0 <= j < s.drop_last().len() implies (#[trigger] s.drop_last()[
            j
        ]).pgid != k by {
            assert(s.drop_last()[j] == s[j]);
        }
        lemma_group_absent(s.drop_last(), k);
        assert(spec_group(s, k) =~= Seq::<InfoV>::empty());
    }
}

/// Group processes by their group id: the result maps exactly the group
/// ids that occur, each to the processes of that group, in their original
/// order — a partition of the processes by group.
pub fn get_all_groups(infos: Vec<ProcessInfo>) -> (r: HashMap<i32, Vec<ProcessInfo>>)
    ensures
        forall|k: i32|
            r@.contains_key(k) <==> exists|i: int|
                0 <= i < infos@.len() && (#[trigger] infos@[i]).pgid == k,
        forall|k: i32| #[trigger]
            r@.contains_key(k) ==> views_of(r@[k]@) == spec_group(views_of(infos@), k),
{
    broadcast use vstd::std_specs::hash::group_hash_axioms;

    let mut r: HashMap<i32, Vec<ProcessInfo>> = HashMap::new();
    let mut i: usize = 0;
    let ghost whole = infos@;
    let ghost wviews = views_of(infos@);
    while i < infos.len()
        invariant
            i <= infos@.len(),
            whole == infos@,
            wviews == views_of(whole),
            vstd::std_specs::hash::obeys_key_model::<i32>(),
            vstd::std_specs::hash::builds_valid_hashers::<std::collections::hash_map::RandomState>(),
            forall|k: i32|
                r@.contains_key(k) <==> exists|j: int|
                    0 <= j < i && (#[trigger] whole[j]).pgid == k,
            forall|k: i32| #[trigger]
                r@.contains_key(k) ==> views_of(r@[k]@) == spec_group(wviews.take(i as int), k),
        decreases infos@.len() - i,
    {
        let pid = infos[i].pgid;
        let ghost entry_map = r@;
        let mut group = match r.remove(&pid) {
            Some(v) => v,
            None => Vec::new(),
        };
        let ghost old_group_views = views_of(group@);
        let info = infos[i].clone_info();
        proof {
            assert(wviews[i as int] == whole[i as int]@);
            assert(info@ == whole[i as int]@);
        }
        group.push(info);
        r.insert(pid, group);
        proof {
            assert(wviews.take(i + 1).drop_last() =~= wviews.take(i as int));
            assert(wviews.take(i + 1).last() == wviews[i as int]);
            assert forall|k: i32| #[trigger]
                r@.contains_key(k) implies views_of(r@[k]@) == spec_group(
                wviews.take(i + 1),
                k,
            ) by {
                if k == pid {
                    assert(views_of(r@[k]@) =~= old_group_views + seq![wviews[i as int]]);
                    if entry_map.contains_key(k) {
                        assert(old_group_views == spec_group(wviews.take(i as int), k));
                        assert(spec_group(wviews.take(i + 1), k) =~= spec_group(
                            wviews.take(i as int),
                            k,
                        ) + seq![wviews[i as int]]);
                    } else {
                        assert forall|j: int| 0 <= j < wviews.take(i as int).len() implies (
                        #[trigger] wviews.take(i as int)[j]).pgid != k by {
                            assert(wviews.take(i as int)[j] == whole[j]@);
                            assert(!(exists|j2: int|
                                0 <= j2 < i && (#[trigger] whole[j2]).pgid == k));
                        }
                        lemma_group_absent(wviews.take(i as int), k);
                        assert(old_group_views =~= Seq::<InfoV>::empty());
                        assert(spec_group(wviews.take(i + 1), k) =~= Seq::<InfoV>::empty()
                            + seq![wviews[i as int]]);
                        assert(views_of(r@[k]@) =~= seq![wviews[i as int]]);
                    }
                } else {
                    assert(r@[k] == entry_map[k]);
                    assert(spec_group(wviews.take(i + 1), k) =~= spec_group(
                        wviews.take(i as int),
                        k,
                    ));
                }
            }
        }
        i = i + 1;
    }
    proof {
        assert(wviews.take(wviews.len() as int) =~= wviews);
    }
    r
}

impl ProcessInfo {
    /// Copy a process record.
    pub fn clone_info(&self) -> (r: ProcessInfo)
        ensures
            r.name@ == self.name@,
            r.pid == self.pid,
            r.ppid == self.ppid,
            r.pgid == self.pgid,
            r.uid == self.uid,
            (r.tty is None) == (self.tty is None),
            (self.tty matches Some(t) ==> (r.tty matches Some(t2) && t2@ == t@)),
    {
        let tty = match &self.tty {
            Some(t) => Some(t.clone()),
            None => None,
        };
        ProcessInfo {
            name: self.name.clone(),
            pid: self.pid,
            ppid: self.ppid,
            pgid: self.pgid,
            uid: self.uid,
            tty,
        }
    }
}

} // verus!

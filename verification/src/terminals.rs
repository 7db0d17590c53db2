//! Terminal helpers: normalizing terminal identifiers, deriving a
//! controlling-terminal path from the kernel's device number, and the
//! escape sequences that clear a terminal.

use vstd::prelude::*;

use crate::errors::ProcError;
use crate::maps::bytes_of;

verus! {

/// The pseudo-terminal major device number.
pub const PTY_MAJOR: i32 = 136;

/// `s` begins with the bytes `p`.
pub open spec fn starts_with_bytes(s: Seq<u8>, p: Seq<u8>) -> bool {
    s.len() >= p.len() && s.subrange(0, p.len() as int) == p
}

/// The byte content of `/dev/pts/`.
pub open spec fn dev_pts_prefix() -> Seq<u8> {
    seq![47u8, 100u8, 101u8, 118u8, 47u8, 112u8, 116u8, 115u8, 47u8]
}

/// The byte content of `pts/`.
pub open spec fn pts_prefix() -> Seq<u8> {
    seq![112u8, 116u8, 115u8, 47u8]
}

/// Normalize a terminal identifier: `/dev/pts/N` passes through, `pts/N`
/// gains the `/dev/` prefix, anything else is rejected.
pub fn normalize_tty(tty: &str) -> (r: Result<String, ProcError>)
    ensures
        starts_with_bytes(bytes_of(tty), dev_pts_prefix()) ==> (r matches Ok(s) && s@ == tty@),
        !starts_with_bytes(bytes_of(tty), dev_pts_prefix()) && starts_with_bytes(
            bytes_of(tty),
            pts_prefix(),
        ) ==> (r matches Ok(s) && s@ == "/dev/"@ + tty@),
        !starts_with_bytes(bytes_of(tty), dev_pts_prefix()) && !starts_with_bytes(
            bytes_of(tty),
            pts_prefix(),
        ) ==> r == Err::<String, ProcError>(ProcError::Protocol),
{
    let b = tty.as_bytes();
    if b.len() >= 9 && b[0] == 47 && b[1] == 100 && b[2] == 101 && b[3] == 118 && b[4] == 47
        && b[5] == 112 && b[6] == 116 && b[7] == 115 && b[8] == 47 {
        proof {
            assert(b@.subrange(0, 9) =~= dev_pts_prefix());
        }
        Ok(tty.to_owned())
    } else if b.len() >= 4 && b[0] == 112 && b[1] == 116 && b[2] == 115 && b[3] == 47 {
        proof {
            assert(b@.subrange(0, 4) =~= pts_prefix());
            if starts_with_bytes(b@, dev_pts_prefix()) {
                assert(b@.subrange(0, 9)[0] == b@[0]);
                assert(dev_pts_prefix()[0] == 47u8);
            }
        }
        let prefix: String = "/dev/".to_owned();
        Ok(prefix.concat(tty))
    } else {
        proof {
            if starts_with_bytes(b@, dev_pts_prefix()) {
                assert(b@[0] == dev_pts_prefix()[0] && b@[1] == dev_pts_prefix()[1] && b@[2]
                    == dev_pts_prefix()[2] && b@[3] == dev_pts_prefix()[3] && b@[4]
                    == dev_pts_prefix()[4] && b@[5] == dev_pts_prefix()[5] && b@[6]
                    == dev_pts_prefix()[6] && b@[7] == dev_pts_prefix()[7] && b@[8]
                    == dev_pts_prefix()[8]);
            }
            if starts_with_bytes(b@, pts_prefix()) {
                assert(b@[0] == pts_prefix()[0] && b@[1] == pts_prefix()[1] && b@[2]
                    == pts_prefix()[2] && b@[3] == pts_prefix()[3]);
            }
        }
        Err(ProcError::Protocol)
    }
}

/// The major number encoded in a controlling-terminal device number.
pub open spec fn spec_tty_major(tty_nr: i32) -> i32 {
    (tty_nr & 0xfff00) >> 8
}

/// The minor number encoded in a controlling-terminal device number.
pub open spec fn spec_tty_minor(tty_nr: i32) -> i32 {
    (tty_nr & 0xff) | ((tty_nr >> 12) & 0xfff00)
}

/// Decode the major and minor numbers from the kernel's packed
/// controlling-terminal device number.
pub fn tty_major_minor(tty_nr: i32) -> (r: (i32, i32))
    ensures
        r.0 == spec_tty_major(tty_nr),
        r.1 == spec_tty_minor(tty_nr),
{
    let major = (tty_nr & 0xfff00) >> 8;
    let minor = (tty_nr & 0xff) | ((tty_nr >> 12) & 0xfff00);
    (major, minor)
}

/// The decimal digits of `n`, most significant first.
pub open spec fn spec_decimal_digits(n: nat) -> Seq<char>
    decreases n,
{
    if n < 10 {
        seq![spec_digit_char(n)]
    } else {
        spec_decimal_digits(n / 10) + seq![spec_digit_char(n % 10)]
    }
}

/// The character of one decimal digit.
pub open spec fn spec_digit_char(d: nat) -> char {
    if d == 0 {
        '0'
    } else if d == 1 {
        '1'
    } else if d == 2 {
        '2'
    } else if d == 3 {
        '3'
    } else if d == 4 {
        '4'
    } else if d == 5 {
        '5'
    } else if d == 6 {
        '6'
    } else if d == 7 {
        '7'
    } else if d == 8 {
        '8'
    } else {
        '9'
    }
}

/// One decimal digit as text.
fn digit_str(d: u64) -> (r: &'static str)
    requires
        d < 10,
    ensures
        r@ == seq![spec_digit_char(d as nat)],
{
    proof {
        reveal_strlit("0");
        reveal_strlit("1");
        reveal_strlit("2");
        reveal_strlit("3");
        reveal_strlit("4");
        reveal_strlit("5");
        reveal_strlit("6");
        reveal_strlit("7");
        reveal_strlit("8");
        reveal_strlit("9");
    }
    if d == 0 {
        "0"
    } else if d == 1 {
        "1"
    } else if d == 2 {
        "2"
    } else if d == 3 {
        "3"
    } else if d == 4 {
        "4"
    } else if d == 5 {
        "5"
    } else if d == 6 {
        "6"
    } else if d == 7 {
        "7"
    } else if d == 8 {
        "8"
    } else {
        "9"
    }
}

/// Render `n` in decimal.
pub fn u64_to_decimal(n: u64) -> (r: String)
    ensures
        r@ == spec_decimal_digits(n as nat),
{
    let mut rev: Vec<u64> = Vec::new();
    let mut v: u64 = n;
    loop
        invariant_except_break
            v > 0 || rev@.len() == 0,
        invariant
            forall|i: int| 0 <= i < rev@.len() ==> #[trigger] rev@[i] < 10,
            spec_decimal_digits(n as nat) == (if v > 0 || rev@.len() == 0 {
                spec_decimal_digits(v as nat)
            } else {
                Seq::<char>::empty()
            }) + Seq::new(rev@.len(), |i: int| spec_digit_char(rev@[rev@.len() - 1 - i] as nat)),
        ensures
            v == 0,
            rev@.len() > 0,
        decreases v, (if rev@.len() == 0 { 1int } else { 0int }),
    {
        let ghost old_rev = rev@;
        let ghost old_v = v;
        let d = v % 10;
        rev.push(d);
        v = v / 10;
        proof {
            let digits = Seq::new(
                rev@.len(),
                |i: int| spec_digit_char(rev@[rev@.len() - 1 - i] as nat),
            );
            let old_digits = Seq::new(
                old_rev.len(),
                |i: int| spec_digit_char(old_rev[old_rev.len() - 1 - i] as nat),
            );
            assert(digits =~= seq![spec_digit_char(d as nat)] + old_digits);
            if old_rev.len() == 0 {
                if old_v < 10 {
                    assert(spec_decimal_digits(n as nat) =~= Seq::<char>::empty() + digits);
                } else {
                    assert(spec_decimal_digits(old_v as nat) == spec_decimal_digits(v as nat)
                        + seq![spec_digit_char(d as nat)]);
                    assert(spec_decimal_digits(n as nat) =~= spec_decimal_digits(v as nat)
                        + digits);
                }
            } else {
                assert(old_v > 0);
                if old_v < 10 {
                    assert(spec_decimal_digits(old_v as nat) == seq![
                        spec_digit_char(old_v as nat),
                    ]);
                    assert(spec_decimal_digits(n as nat) =~= Seq::<char>::empty() + digits);
                } else {
                    assert(spec_decimal_digits(old_v as nat) == spec_decimal_digits(v as nat)
                        + seq![spec_digit_char(d as nat)]);
                    assert(spec_decimal_digits(n as nat) =~= spec_decimal_digits(v as nat)
                        + digits);
                }
            }
        }
        if v == 0 {
            break;
        }
    }
    proof {
        assert(spec_decimal_digits(n as nat) =~= Seq::new(
            rev@.len(),
            |i: int| spec_digit_char(rev@[rev@.len() - 1 - i] as nat),
        ));
    }
    let mut s: String = String::new();
    let mut j: usize = rev.len();
    while j > 0
        invariant
            j <= rev@.len(),
            forall|i: int| 0 <= i < rev@.len() ==> #[trigger] rev@[i] < 10,
            s@ =~= Seq::new(
                (rev@.len() - j) as nat,
                |i: int| spec_digit_char(rev@[rev@.len() - 1 - i] as nat),
            ),
        decreases j,
    {
        j = j - 1;
        let ds = digit_str(rev[j]);
        s.append(ds);
        proof {
            assert(s@ =~= Seq::new(
                (rev@.len() - j) as nat,
                |i: int| spec_digit_char(rev@[rev@.len() - 1 - i] as nat),
            ));
        }
    }
    proof {
        assert(s@ =~= spec_decimal_digits(n as nat));
    }
    s
}

/// The controlling-terminal path of a process whose packed device number
/// is `tty_nr`, when its major number is the pseudo-terminal major:
/// `/dev/pts/` followed by the minor in decimal.  Other majors have no
/// pseudo-terminal path.
pub fn tty_path_of(tty_nr: i32) -> (r: Option<String>)
    ensures
        spec_tty_major(tty_nr) == PTY_MAJOR && spec_tty_minor(tty_nr) >= 0 ==> (r matches Some(s)
            && s@ == "/dev/pts/"@ + spec_decimal_digits(spec_tty_minor(tty_nr) as nat)),
        spec_tty_major(tty_nr) != PTY_MAJOR || spec_tty_minor(tty_nr) < 0 ==> r is None,
{
    let (major, minor) = tty_major_minor(tty_nr);
    if major == PTY_MAJOR && minor >= 0 {
        let digits = u64_to_decimal(minor as u64);
        let prefix: String = "/dev/pts/".to_owned();
        Some(prefix.concat(digits.as_str()))
    } else {
        None
    }
}

/// The escape sequence that clears the screen.
pub fn clear_screen_bytes() -> (r: Vec<u8>)
    ensures
        r@ =~= seq![27u8, 91u8, 50u8, 74u8],
{
    let mut v: Vec<u8> = Vec::new();
    v.push(27);
    v.push(91);
    v.push(50);
    v.push(74);
    v
}

/// The escape sequence that homes the cursor to the top-left corner.
pub fn home_cursor_bytes() -> (r: Vec<u8>)
    ensures
        r@ =~= seq![27u8, 91u8, 49u8, 59u8, 49u8, 72u8],
{
    let mut v: Vec<u8> = Vec::new();
    v.push(27);
    v.push(91);
    v.push(49);
    v.push(59);
    v.push(49);
    v.push(72);
    v
}

} // verus!

verus! {

/// The lowercase hex digits of `n`, most significant first.
pub open spec fn spec_hex_digits(n: nat) -> Seq<char>
    decreases n,
{
    if n < 16 {
        seq![spec_hex_digit_char(n)]
    } else {
        spec_hex_digits(n / 16) + seq![spec_hex_digit_char(n % 16)]
    }
}

/// The character of one lowercase hex digit.
pub open spec fn spec_hex_digit_char(d: nat) -> char {
    if d < 10 {
        spec_digit_char(d)
    } else if d == 10 {
        'a'
    } else if d == 11 {
        'b'
    } else if d == 12 {
        'c'
    } else if d == 13 {
        'd'
    } else if d == 14 {
        'e'
    } else {
        'f'
    }
}

/// One lowercase hex digit as text.
fn hex_digit_str(d: u64) -> (r: &'static str)
    requires
        d < 16,
    ensures
        r@ == seq![spec_hex_digit_char(d as nat)],
{
    proof {
        reveal_strlit("a");
        reveal_strlit("b");
        reveal_strlit("c");
        reveal_strlit("d");
        reveal_strlit("e");
        reveal_strlit("f");
    }
    if d < 10 {
        digit_str(d)
    } else if d == 10 {
        "a"
    } else if d == 11 {
        "b"
    } else if d == 12 {
        "c"
    } else if d == 13 {
        "d"
    } else if d == 14 {
        "e"
    } else {
        "f"
    }
}

/// Render `n` in lowercase hex, without a prefix.
pub fn u64_to_hex(n: u64) -> (r: String)
    ensures
        r@ == spec_hex_digits(n as nat),
{
    let mut rev: Vec<u64> = Vec::new();
    let mut v: u64 = n;
    loop
        invariant_except_break
            v > 0 || rev@.len() == 0,
        invariant
            forall|i: int| 0 <= i < rev@.len() ==> #[trigger] rev@[i] < 16,
            spec_hex_digits(n as nat) == (if v > 0 || rev@.len() == 0 {
                spec_hex_digits(v as nat)
            } else {
                Seq::<char>::empty()
            }) + Seq::new(rev@.len(), |i: int| spec_hex_digit_char(rev@[rev@.len() - 1 - i] as nat)),
        ensures
            v == 0,
            rev@.len() > 0,
        decreases v, (if rev@.len() == 0 { 1int } else { 0int }),
    {
        let ghost old_rev = rev@;
        let ghost old_v = v;
        let d = v % 16;
        rev.push(d);
        v = v / 16;
        proof {
            let digits = Seq::new(
                rev@.len(),
                |i: int| spec_hex_digit_char(rev@[rev@.len() - 1 - i] as nat),
            );
            let old_digits = Seq::new(
                old_rev.len(),
                |i: int| spec_hex_digit_char(old_rev[old_rev.len() - 1 - i] as nat),
            );
            assert(digits =~= seq![spec_hex_digit_char(d as nat)] + old_digits);
            if old_rev.len() == 0 {
                if old_v < 16 {
                    assert(spec_hex_digits(n as nat) =~= Seq::<char>::empty() + digits);
                } else {
                    assert(spec_hex_digits(old_v as nat) == spec_hex_digits(v as nat)
                        + seq![spec_hex_digit_char(d as nat)]);
                    assert(spec_hex_digits(n as nat) =~= spec_hex_digits(v as nat) + digits);
                }
            } else {
                assert(old_v > 0);
                if old_v < 16 {
                    assert(spec_hex_digits(old_v as nat) == seq![
                        spec_hex_digit_char(old_v as nat),
                    ]);
                    assert(spec_hex_digits(n as nat) =~= Seq::<char>::empty() + digits);
                } else {
                    assert(spec_hex_digits(old_v as nat) == spec_hex_digits(v as nat)
                        + seq![spec_hex_digit_char(d as nat)]);
                    assert(spec_hex_digits(n as nat) =~= spec_hex_digits(v as nat) + digits);
                }
            }
        }
        if v == 0 {
            break;
        }
    }
    proof {
        assert(spec_hex_digits(n as nat) =~= Seq::new(
            rev@.len(),
            |i: int| spec_hex_digit_char(rev@[rev@.len() - 1 - i] as nat),
        ));
    }
    let mut s: String = String::new();
    let mut j: usize = rev.len();
    while j > 0
        invariant
            j <= rev@.len(),
            forall|i: int| 0 <= i < rev@.len() ==> #[trigger] rev@[i] < 16,
            s@ =~= Seq::new(
                (rev@.len() - j) as nat,
                |i: int| spec_hex_digit_char(rev@[rev@.len() - 1 - i] as nat),
            ),
        decreases j,
    {
        j = j - 1;
        let ds = hex_digit_str(rev[j]);
        s.append(ds);
        proof {
            assert(s@ =~= Seq::new(
                (rev@.len() - j) as nat,
                |i: int| spec_hex_digit_char(rev@[rev@.len() - 1 - i] as nat),
            ));
        }
    }
    proof {
        assert(s@ =~= spec_hex_digits(n as nat));
    }
    s
}

} // verus!

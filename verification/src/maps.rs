//! Reading the kernel-exposed per-process memory map.
//!
//! A map record line has six whitespace-separated fields: an address range
//! `start-end` in hex, a four-character permission field, an offset, a
//! device, an inode, and a label that may itself contain whitespace and may
//! be empty.  Parsing is a pure function from the line's bytes to a
//! [`MemoryMap`] record; every accepted record describes a page-aligned
//! region of positive, page-aligned size.

use vstd::prelude::*;

use crate::errors::ProcError;

verus! {

/// Page size on the supported platform.
pub const PAGE_SIZE: u64 = 4096;

/// One contiguous segment of a process's address space.
///
/// When `data` is non-empty it holds the segment's contents and its length
/// equals `size`; an empty `data` means only the layout was read.
pub struct MemoryMap {
    pub base_address: u64,
    pub size: u64,
    pub label: String,
    pub readable: bool,
    pub writable: bool,
    pub executable: bool,
    pub private: bool,
    pub data: Vec<u8>,
}

impl MemoryMap {
    /// The record invariant: base and size are page-aligned, size is
    /// positive, the range fits in the address space, and the payload is
    /// either absent or exactly fills the region.
    pub open spec fn wf(self) -> bool {
        &&& self.base_address as int % PAGE_SIZE as int == 0
        &&& self.size > 0
        &&& self.size as int % PAGE_SIZE as int == 0
        &&& self.base_address + self.size <= u64::MAX
        &&& (self.data@.len() == 0 || self.data@.len() == self.size)
    }

    /// The end of the half-open address range `[base_address, end())`.
    pub open spec fn spec_end(self) -> int {
        self.base_address + self.size
    }

    /// Whether a populating read should fill this region: it must be
    /// readable and not the `[vvar]` sentinel, which the kernel refuses to
    /// read through the per-process memory interface.
    pub open spec fn spec_should_populate(self) -> bool {
        self.readable && !is_vvar_label(self.label@)
    }
}

/// The byte content of a `&str`, the domain over which parsing is specified.
pub open spec fn bytes_of(s: &str) -> Seq<u8> {
    vstd::string::StringSliceAdditionalSpecFns::spec_bytes(s)
}

/// ASCII whitespace, matching what the kernel can emit between map fields.
pub open spec fn is_ws(b: u8) -> bool {
    b == 32 || (9 <= b && b <= 13)
}

/// The label of the `[vvar]` sentinel region: its text encodes to exactly
/// those six bytes.
pub open spec fn is_vvar_label(s: Seq<char>) -> bool {
    vstd::utf8::encode_utf8(s) == seq![91u8, 118u8, 118u8, 97u8, 114u8, 93u8]
}

/// The label of the `[vdso]` region: its text encodes to exactly those six
/// bytes.
pub open spec fn is_vdso_label(s: Seq<char>) -> bool {
    vstd::utf8::encode_utf8(s) == seq![91u8, 118u8, 100u8, 115u8, 111u8, 93u8]
}

/// The index of the first byte of `s` satisfying `f`, or `s.len()` if none.
pub open spec fn idx_where(s: Seq<u8>, f: spec_fn(u8) -> bool) -> int
    decreases s.len(),
{
    if s.len() == 0 {
        0
    } else if f(s[0]) {
        0
    } else {
        1 + idx_where(s.drop_first(), f)
    }
}

/// `idx_where` really is the first index satisfying `f`.
pub proof fn lemma_idx_where(s: Seq<u8>, f: spec_fn(u8) -> bool)
    ensures
        0 <= idx_where(s, f) <= s.len(),
        idx_where(s, f) < s.len() ==> f(s[idx_where(s, f)]),
        forall|j: int| 0 <= j < idx_where(s, f) ==> !f(s[j]),
    decreases s.len(),
{
    if s.len() > 0 && !f(s[0]) {
        lemma_idx_where(s.drop_first(), f);
        assert forall|j: int| 0 <= j < idx_where(s, f) implies !f(s[j]) by {
            if j > 0 {
                assert(s[j] == s.drop_first()[j - 1]);
            }
        }
    }
}

/// Any position that is first is `idx_where`.
pub proof fn lemma_idx_where_unique(s: Seq<u8>, f: spec_fn(u8) -> bool, k: int)
    requires
        0 <= k <= s.len(),
        k < s.len() ==> f(s[k]),
        forall|j: int| 0 <= j < k ==> !f(s[j]),
    ensures
        idx_where(s, f) == k,
{
    lemma_idx_where(s, f);
    let i = idx_where(s, f);
    if i < k {
        assert(!f(s[i]));
    }
    if k < i {
        assert(!f(s[k]));
    }
}

/// The value of a hex digit byte, if it is one.
pub open spec fn hex_digit(b: u8) -> Option<u8> {
    if 48 <= b && b <= 57 {
        Some((b - 48) as u8)
    } else if 97 <= b && b <= 102 {
        Some((b - 87) as u8)
    } else if 65 <= b && b <= 70 {
        Some((b - 55) as u8)
    } else {
        None
    }
}

/// Every byte of `s` is a hex digit.
pub open spec fn all_hex(s: Seq<u8>) -> bool {
    forall|i: int| 0 <= i < s.len() ==> #[trigger] hex_digit(s[i]) is Some
}

/// The number denoted by a sequence of hex digits, most significant first.
pub open spec fn hex_value(s: Seq<u8>) -> nat
    decreases s.len(),
{
    if s.len() == 0 {
        0
    } else {
        hex_value(s.drop_last()) * 16 + (match hex_digit(s.last()) {
            Some(d) => d as nat,
            None => 0,
        })
    }
}

/// What parsing a hex field yields: the numeric-parse semantics accept an
/// optional leading `+`, then one or more hex digits, and reject overflow.
pub open spec fn spec_parse_hex(s: Seq<u8>) -> Option<u64> {
    let t = if s.len() > 0 && s[0] == 43 {
        s.drop_first()
    } else {
        s
    };
    if t.len() > 0 && all_hex(t) && hex_value(t) <= u64::MAX {
        Some(hex_value(t) as u64)
    } else {
        None
    }
}

proof fn lemma_hex_value_step(s: Seq<u8>, i: int)
    requires
        0 <= i < s.len(),
    ensures
        hex_value(s.take(i + 1)) == hex_value(s.take(i)) * 16 + (match hex_digit(s[i]) {
            Some(d) => d as nat,
            None => 0,
        }),
{
    assert(s.take(i + 1).drop_last() =~= s.take(i));
    assert(s.take(i + 1).last() == s[i]);
}

/// Once the accumulated value exceeds `u64::MAX`, appending digits keeps it
/// above.
proof fn lemma_hex_value_grows(s: Seq<u8>, i: int)
    requires
        0 <= i < s.len(),
        hex_value(s.take(i)) > u64::MAX,
    ensures
        hex_value(s.take(i + 1)) > u64::MAX,
{
    lemma_hex_value_step(s, i);
    assert(hex_value(s.take(i)) * 16 >= hex_value(s.take(i)));
}

/// The exec hex digit decoder.
fn hex_digit_of(b: u8) -> (r: Option<u8>)
    ensures
        r == hex_digit(b),
{
    if 48 <= b && b <= 57 {
        Some(b - 48)
    } else if 97 <= b && b <= 102 {
        Some(b - 87)
    } else if 65 <= b && b <= 70 {
        Some(b - 55)
    } else {
        None
    }
}

/// Parse a whole byte slice as a hex number with the numeric-parse
/// semantics: optional leading `+`, at least one digit, overflow rejected.
pub fn parse_hex_u64(digits: &[u8]) -> (r: Option<u64>)
    ensures
        r == spec_parse_hex(digits@),
{
    let ghost whole = digits@;
    let mut i: usize = 0;
    if digits.len() > 0 && digits[0] == 43 {
        i = 1;
    }
    let ghost t = if whole.len() > 0 && whole[0] == 43 {
        whole.drop_first()
    } else {
        whole
    };
    let start: usize = i;
    proof {
        assert(t =~= whole.subrange(start as int, whole.len() as int));
    }
    if i == digits.len() {
        return None;
    }
    let mut v: u64 = 0;
    let mut overflow: bool = false;
    while i < digits.len()
        invariant
            start <= i <= digits.len(),
            start <= 1,
            whole == digits@,
            t == whole.subrange(start as int, whole.len() as int),
            t == (if whole.len() > 0 && whole[0] == 43 {
                whole.drop_first()
            } else {
                whole
            }),
            all_hex(t.take(i - start)),
            !overflow ==> v == hex_value(t.take(i - start)),
            overflow ==> hex_value(t.take(i - start)) > u64::MAX,
        decreases digits.len() - i,
    {
        let ghost k = i - start;
        proof {
            assert(whole.subrange(start as int, whole.len() as int)[k] == whole[k + start]);
            assert(t[k] == whole[i as int]);
        }
        match hex_digit_of(digits[i]) {
            None => {
                proof {
                    assert(hex_digit(t[k]) is None);
                    assert(!all_hex(t));
                }
                return None;
            },
            Some(d) => {
                proof {
                    lemma_hex_value_step(t, k);
                    assert(t.take(k + 1)[k] == t[k]);
                    assert(forall|j: int|
                        0 <= j < k ==> t.take(k + 1)[j] == #[trigger] t.take(k)[j]);
                }
                if overflow {
                    proof {
                        lemma_hex_value_grows(t, k);
                    }
                } else if v > (u64::MAX - d as u64) / 16 {
                    proof {
                        assert(hex_value(t.take(k)) * 16 + d > u64::MAX) by {
                            assert(v >= (u64::MAX - d as u64) / 16 + 1);
                        };
                    }
                    overflow = true;
                } else {
                    proof {
                        assert(v * 16 + d <= u64::MAX) by {
                            assert(v <= (u64::MAX - d as u64) / 16);
                        };
                    }
                    v = v * 16 + d as u64;
                }
            },
        }
        i = i + 1;
    }
    proof {
        assert(t.take(i - start) =~= t);
    }
    if overflow {
        None
    } else {
        Some(v)
    }
}

/// Copy `b[a..c]` into a fresh vector.
pub fn sub_bytes(b: &[u8], a: usize, c: usize) -> (r: Vec<u8>)
    requires
        a <= c <= b@.len(),
    ensures
        r@ == b@.subrange(a as int, c as int),
{
    let mut r: Vec<u8> = Vec::new();
    let mut i: usize = a;
    while i < c
        invariant
            a <= i <= c <= b@.len(),
            r@ =~= b@.subrange(a as int, i as int),
        decreases c - i,
    {
        r.push(b[i]);
        i = i + 1;
    }
    proof {
        assert(r@ =~= b@.subrange(a as int, c as int));
    }
    r
}

} // verus!

verus! {

use vstd::utf8::{valid_utf8, decode_utf8};

/// The whitespace predicate as a single spec-function value, so that every
/// mention of "split at whitespace" is literally the same function.
pub open spec fn ws_pred() -> spec_fn(u8) -> bool {
    |b: u8| is_ws(b)
}

/// The non-whitespace predicate, for trimming.
pub open spec fn non_ws_pred() -> spec_fn(u8) -> bool {
    |b: u8| !is_ws(b)
}

/// The `-` separator of an address range.
pub open spec fn dash_pred() -> spec_fn(u8) -> bool {
    |b: u8| b == 45
}

/// The line separator.
pub open spec fn nl_pred() -> spec_fn(u8) -> bool {
    |b: u8| b == 10
}

/// Split into at most `n` fields at single whitespace bytes; the last field
/// is the unsplit remainder.
pub open spec fn spec_splitn_ws(s: Seq<u8>, n: nat) -> Seq<Seq<u8>>
    decreases n,
{
    if n <= 1 {
        seq![s]
    } else {
        let i = idx_where(s, ws_pred());
        if i == s.len() {
            seq![s]
        } else {
            seq![s.take(i)] + spec_splitn_ws(s.subrange(i + 1, s.len() as int), (n - 1) as nat)
        }
    }
}

/// The last index of `s` satisfying `f`, or `-1` if none.
pub open spec fn last_where(s: Seq<u8>, f: spec_fn(u8) -> bool) -> int
    decreases s.len(),
{
    if s.len() == 0 {
        -1
    } else if f(s.last()) {
        s.len() - 1
    } else {
        last_where(s.drop_last(), f)
    }
}

/// `last_where` really is the last index satisfying `f`.
pub proof fn lemma_last_where(s: Seq<u8>, f: spec_fn(u8) -> bool)
    ensures
        -1 <= last_where(s, f) < s.len(),
        last_where(s, f) >= 0 ==> f(s[last_where(s, f)]),
        forall|j: int| last_where(s, f) < j < s.len() ==> !f(s[j]),
    decreases s.len(),
{
    if s.len() > 0 && !f(s.last()) {
        lemma_last_where(s.drop_last(), f);
        assert forall|j: int| last_where(s, f) < j < s.len() implies !f(s[j]) by {
            if j < s.len() - 1 {
                assert(s[j] == s.drop_last()[j]);
            }
        }
    }
}

/// Any position that is last is `last_where`.
pub proof fn lemma_last_where_unique(s: Seq<u8>, f: spec_fn(u8) -> bool, k: int)
    requires
        -1 <= k < s.len(),
        k >= 0 ==> f(s[k]),
        forall|j: int| k < j < s.len() ==> !f(s[j]),
    ensures
        last_where(s, f) == k,
{
    lemma_last_where(s, f);
    let i = last_where(s, f);
    if i < k {
        assert(!f(s[k]));
    }
    if k < i {
        assert(!f(s[i]));
    }
}

/// Strip leading and trailing whitespace.
pub open spec fn spec_trim_ws(s: Seq<u8>) -> Seq<u8> {
    let a = idx_where(s, non_ws_pred());
    if a == s.len() {
        Seq::empty()
    } else {
        s.subrange(a, last_where(s, non_ws_pred()) + 1)
    }
}

/// What parsing the permission field's characters yields: exactly four
/// characters, each flag set by its letter and cleared by any other
/// character.
pub open spec fn spec_parse_perms_chars(cs: Seq<char>) -> Option<(bool, bool, bool, bool)> {
    if cs.len() == 4 {
        Some((cs[0] == 'r', cs[1] == 'w', cs[2] == 'x', cs[3] == 'p'))
    } else {
        None
    }
}

/// What parsing the permission field yields: its bytes decoded to text,
/// then the four-character rule.
pub open spec fn spec_parse_perms(s: Seq<u8>) -> Option<(bool, bool, bool, bool)> {
    if vstd::utf8::valid_utf8(s) {
        spec_parse_perms_chars(vstd::utf8::decode_utf8(s))
    } else {
        None
    }
}

/// What parsing the `start-end` range field yields.  Accepted ranges are
/// non-empty, start at a page boundary, and span a whole number of pages;
/// the result is the pair (base address, size).
pub open spec fn spec_parse_byte_range(s: Seq<u8>) -> Option<(u64, u64)> {
    let i = idx_where(s, dash_pred());
    if i == s.len() {
        None
    } else {
        let left = spec_parse_hex(s.take(i));
        let right = spec_parse_hex(s.subrange(i + 1, s.len() as int));
        match (left, right) {
            (Some(start), Some(end)) => if start < end && start as int % PAGE_SIZE as int == 0
                && (end - start) as int % PAGE_SIZE as int == 0 {
                Some((start, (end - start) as u64))
            } else {
                None
            },
            _ => None,
        }
    }
}

/// The record denoted by one map line, before its label is decoded to text.
pub ghost struct SpecMapRec {
    pub base: u64,
    pub size: u64,
    pub readable: bool,
    pub writable: bool,
    pub executable: bool,
    pub private: bool,
    pub label: Seq<u8>,
}

/// What parsing one whole map line yields: six fields, a valid range, a
/// four-byte permission field, and the trimmed sixth field as the label.
pub open spec fn spec_parse_map_line(s: Seq<u8>) -> Option<SpecMapRec> {
    let parts = spec_splitn_ws(s, 6);
    if parts.len() != 6 {
        None
    } else {
        match (spec_parse_byte_range(parts[0]), spec_parse_perms(parts[1])) {
            (Some((base, size)), Some((r, w, x, p))) => Some(
                SpecMapRec {
                    base,
                    size,
                    readable: r,
                    writable: w,
                    executable: x,
                    private: p,
                    label: spec_trim_ws(parts[5]),
                },
            ),
            _ => None,
        }
    }
}

/// The parsed record `mm` is exactly what the spec record `m` denotes.
pub open spec fn map_matches(mm: MemoryMap, m: SpecMapRec) -> bool {
    &&& mm.base_address == m.base
    &&& mm.size == m.size
    &&& mm.readable == m.readable
    &&& mm.writable == m.writable
    &&& mm.executable == m.executable
    &&& mm.private == m.private
    &&& valid_utf8(m.label) && mm.label@ == decode_utf8(m.label)
    &&& mm.data@.len() == 0
}

/// Relies on `str::chars`: the characters of the text, in order — exactly
/// the text's view.
#[verifier::external_body]
pub(crate) fn chars_of(s: &str) -> (r: Vec<char>)
    ensures
        r@ == s@,
{
    s.chars().collect()
}

/// Relies on `String::from_utf8`: it succeeds exactly on valid UTF-8 and
/// returns the decoding of the input bytes.
#[verifier::external_body]
pub(crate) fn string_from_utf8(v: Vec<u8>) -> (r: Result<String, ()>)
    ensures
        match r {
            Ok(s) => valid_utf8(v@) && s@ == decode_utf8(v@),
            Err(_) => !valid_utf8(v@),
        },
{
    String::from_utf8(v).map_err(|_| ())
}

pub fn is_ws_byte(b: u8) -> (r: bool)
    ensures
        r == is_ws(b),
{
    b == 32 || (9 <= b && b <= 13)
}

/// Find the first whitespace byte at or after `from`.
pub fn find_ws(b: &[u8], from: usize) -> (r: usize)
    requires
        from <= b@.len(),
    ensures
        from <= r <= b@.len(),
        idx_where(b@.subrange(from as int, b@.len() as int), ws_pred()) == r - from,
{
    let mut i: usize = from;
    while i < b.len() && !is_ws_byte(b[i])
        invariant
            from <= i <= b@.len(),
            forall|j: int| from <= j < i ==> !is_ws(#[trigger] b@[j]),
        decreases b@.len() - i,
    {
        i = i + 1;
    }
    proof {
        let sub = b@.subrange(from as int, b@.len() as int);
        assert forall|j: int| 0 <= j < i - from implies !(ws_pred()(#[trigger] sub[j])) by {
            assert(sub[j] == b@[from + j]);
        }
        if i < b.len() {
            assert(sub[i - from] == b@[i as int]);
            assert(ws_pred()(sub[i - from]));
        }
        lemma_idx_where_unique(sub, ws_pred(), i - from);
    }
    i
}

/// Split the tail of `b` starting at `from` into at most `n` fields at
/// single whitespace bytes.
fn splitn_ws(b: &[u8], from: usize, n: usize) -> (parts: Vec<Vec<u8>>)
    requires
        from <= b@.len(),
        n >= 1,
    ensures
        parts@.map_values(|v: Vec<u8>| v@) == spec_splitn_ws(
            b@.subrange(from as int, b@.len() as int),
            n as nat,
        ),
    decreases n,
{
    let ghost sub = b@.subrange(from as int, b@.len() as int);
    let fw = find_ws(b, from);
    if n == 1 || fw == b.len() {
        let whole = sub_bytes(b, from, b.len());
        let mut parts: Vec<Vec<u8>> = Vec::new();
        parts.push(whole);
        proof {
            assert(parts@.map_values(|v: Vec<u8>| v@) =~= seq![sub]);
        }
        parts
    } else {
        let head = sub_bytes(b, from, fw);
        let mut parts = splitn_ws(b, fw + 1, n - 1);
        parts.insert(0, head);
        proof {
            let i = idx_where(sub, ws_pred());
            assert(i == fw - from);
            assert(head@ =~= sub.take(i));
            assert(b@.subrange(fw + 1, b@.len() as int) =~= sub.subrange(i + 1, sub.len() as int));
            assert(parts@.map_values(|v: Vec<u8>| v@) =~= seq![sub.take(i)] + spec_splitn_ws(
                sub.subrange(i + 1, sub.len() as int),
                (n - 1) as nat,
            ));
        }
        parts
    }
}

/// Trim ASCII whitespace from both ends of `b`, copying the middle.
fn trim_ws(b: &[u8]) -> (r: Vec<u8>)
    ensures
        r@ == spec_trim_ws(b@),
{
    let mut a: usize = 0;
    while a < b.len() && is_ws_byte(b[a])
        invariant
            a <= b@.len(),
            forall|j: int| 0 <= j < a ==> is_ws(#[trigger] b@[j]),
        decreases b@.len() - a,
    {
        a = a + 1;
    }
    if a == b.len() {
        proof {
            assert forall|j: int| 0 <= j < b@.len() implies !(non_ws_pred()(#[trigger] b@[j])) by {}
            lemma_idx_where_unique(b@, non_ws_pred(), b@.len() as int);
        }
        return Vec::new();
    }
    let mut z: usize = b.len();
    while z > a && is_ws_byte(b[z - 1])
        invariant
            a < z <= b@.len() || (a == z),
            a <= z,
            forall|j: int| z <= j < b@.len() ==> is_ws(#[trigger] b@[j]),
        decreases z,
    {
        z = z - 1;
    }
    proof {
        assert(!is_ws(b@[a as int]));
        lemma_idx_where_unique(b@, non_ws_pred(), a as int);
        assert(z > a);
        assert(!is_ws(b@[z - 1]));
        lemma_last_where_unique(b@, non_ws_pred(), z - 1);
    }
    sub_bytes(b, a, z)
}

/// Parse the `start-end` hex address range of a map line.
///
/// Returns the pair (base address, size).  A range whose start is not
/// page-aligned, whose length is not a positive multiple of the page size,
/// or whose numbers do not parse, is rejected.
pub fn parse_byte_range(byte_range: &str) -> (r: Result<(u64, u64), ProcError>)
    ensures
        match spec_parse_byte_range(bytes_of(byte_range)) {
            Some(pair) => r == Ok::<(u64, u64), ProcError>(pair),
            None => r == Err::<(u64, u64), ProcError>(ProcError::MapParse),
        },
{
    let b = byte_range.as_bytes();
    parse_byte_range_bytes(b)
}

fn parse_byte_range_bytes(b: &[u8]) -> (r: Result<(u64, u64), ProcError>)
    ensures
        match spec_parse_byte_range(b@) {
            Some(pair) => r == Ok::<(u64, u64), ProcError>(pair),
            None => r == Err::<(u64, u64), ProcError>(ProcError::MapParse),
        },
{
    let mut i: usize = 0;
    while i < b.len() && b[i] != 45
        invariant
            i <= b@.len(),
            forall|j: int| 0 <= j < i ==> !(dash_pred()(#[trigger] b@[j])),
        decreases b@.len() - i,
    {
        i = i + 1;
    }
    proof {
        lemma_idx_where_unique(b@, dash_pred(), i as int);
    }
    if i == b.len() {
        return Err(ProcError::MapParse);
    }
    let left = sub_bytes(b, 0, i);
    let right = sub_bytes(b, i + 1, b.len());
    proof {
        assert(left@ =~= b@.take(i as int));
        assert(right@ =~= b@.subrange(i + 1, b@.len() as int));
    }
    let start = match parse_hex_u64(left.as_slice()) {
        Some(v) => v,
        None => {
            return Err(ProcError::MapParse);
        },
    };
    let end = match parse_hex_u64(right.as_slice()) {
        Some(v) => v,
        None => {
            return Err(ProcError::MapParse);
        },
    };
    if start < end && start % PAGE_SIZE == 0 && (end - start) % PAGE_SIZE == 0 {
        Ok((start, end - start))
    } else {
        Err(ProcError::MapParse)
    }
}

/// Parse the four-character permission field of a map line as the flags
/// (readable, writable, executable, private); any character other than the
/// flag's letter means the flag is clear.
pub fn parse_permissions(permissions: &str) -> (r: Result<(bool, bool, bool, bool), ProcError>)
    ensures
        match spec_parse_perms_chars(permissions@) {
            Some(flags) => r == Ok::<(bool, bool, bool, bool), ProcError>(flags),
            None => r == Err::<(bool, bool, bool, bool), ProcError>(ProcError::MapParse),
        },
{
    let cs = chars_of(permissions);
    parse_permission_chars(&cs)
}

fn parse_permission_chars(cs: &Vec<char>) -> (r: Result<(bool, bool, bool, bool), ProcError>)
    ensures
        match spec_parse_perms_chars(cs@) {
            Some(flags) => r == Ok::<(bool, bool, bool, bool), ProcError>(flags),
            None => r == Err::<(bool, bool, bool, bool), ProcError>(ProcError::MapParse),
        },
{
    if cs.len() != 4 {
        return Err(ProcError::MapParse);
    }
    Ok((cs[0] == 'r', cs[1] == 'w', cs[2] == 'x', cs[3] == 'p'))
}

fn parse_permissions_bytes(b: &[u8]) -> (r: Result<(bool, bool, bool, bool), ProcError>)
    ensures
        match spec_parse_perms(b@) {
            Some(flags) => r == Ok::<(bool, bool, bool, bool), ProcError>(flags),
            None => r == Err::<(bool, bool, bool, bool), ProcError>(ProcError::MapParse),
        },
{
    let copy = sub_bytes(b, 0, b.len());
    proof {
        assert(b@.subrange(0, b@.len() as int) =~= b@);
    }
    let field = match string_from_utf8(copy) {
        Ok(s) => s,
        Err(_) => {
            return Err(ProcError::MapParse);
        },
    };
    let cs = chars_of(field.as_str());
    parse_permission_chars(&cs)
}

/// Parse one line of the kernel-exposed memory map.
///
/// The accepted form is six whitespace-separated fields; the second is the
/// four-character permission field, and the sixth is the label, kept with
/// its surrounding whitespace trimmed (an absent label parses to the empty
/// string, never a whitespace-only one).  Every
/// accepted record satisfies [`MemoryMap::wf`]: its base and size are
/// page-aligned and its size is positive.  The payload of a parsed record
/// is always empty.
pub fn parse_map_line(line: &str) -> (r: Result<MemoryMap, ProcError>)
    ensures
        match spec_parse_map_line(bytes_of(line)) {
            Some(m) => match r {
                Ok(mm) => map_matches(mm, m),
                Err(e) => !valid_utf8(m.label) && e == ProcError::MapParse,
            },
            None => r == Err::<MemoryMap, ProcError>(ProcError::MapParse),
        },
        r matches Ok(mm) ==> mm.wf(),
{
    let b = line.as_bytes();
    parse_map_line_bytes(b)
}

fn parse_map_line_bytes(b: &[u8]) -> (r: Result<MemoryMap, ProcError>)
    ensures
        match spec_parse_map_line(b@) {
            Some(m) => match r {
                Ok(mm) => map_matches(mm, m),
                Err(e) => !valid_utf8(m.label) && e == ProcError::MapParse,
            },
            None => r == Err::<MemoryMap, ProcError>(ProcError::MapParse),
        },
        r matches Ok(mm) ==> mm.wf(),
{
    let parts = splitn_ws(b, 0, 6);
    proof {
        assert(b@.subrange(0, b@.len() as int) =~= b@);
    }
    if parts.len() != 6 {
        return Err(ProcError::MapParse);
    }
    let (base, size) = match parse_byte_range_bytes(parts[0].as_slice()) {
        Ok(pair) => pair,
        Err(e) => {
            return Err(e);
        },
    };
    let (readable, writable, executable, private) = match parse_permissions_bytes(
        parts[1].as_slice(),
    ) {
        Ok(flags) => flags,
        Err(e) => {
            return Err(e);
        },
    };
    let label_bytes = trim_ws(parts[5].as_slice());
    let label = match string_from_utf8(label_bytes) {
        Ok(s) => s,
        Err(_) => {
            return Err(ProcError::MapParse);
        },
    };
    let mm = MemoryMap {
        base_address: base,
        size,
        label,
        readable,
        writable,
        executable,
        private,
        data: Vec::new(),
    };
    proof {
        vstd::arithmetic::div_mod::lemma_mod_adds(base as int, size as int, PAGE_SIZE as int);
    }
    Ok(mm)
}

} // verus!

verus! {

/// The lines of a byte text, split at newline bytes; a trailing newline
/// ends the last line rather than opening an empty one.
pub open spec fn spec_lines(s: Seq<u8>) -> Seq<Seq<u8>>
    decreases s.len(),
{
    if s.len() == 0 {
        Seq::empty()
    } else {
        let i = idx_where(s, nl_pred());
        if 0 <= i < s.len() {
            seq![s.take(i)] + spec_lines(s.subrange(i + 1, s.len() as int))
        } else {
            seq![s]
        }
    }
}

/// What parsing every line yields, or nothing if any line is rejected.
pub open spec fn spec_parse_all(lines: Seq<Seq<u8>>) -> Option<Seq<SpecMapRec>>
    decreases lines.len(),
{
    if lines.len() == 0 {
        Some(Seq::empty())
    } else {
        match (spec_parse_map_line(lines[0]), spec_parse_all(lines.drop_first())) {
            (Some(m), Some(rest)) => Some(seq![m] + rest),
            _ => None,
        }
    }
}

/// Every record's label decodes as text.
pub open spec fn all_labels_utf8(ms: Seq<SpecMapRec>) -> bool {
    forall|i: int| 0 <= i < ms.len() ==> valid_utf8(#[trigger] ms[i].label)
}

/// The parsed records `v` are exactly what the spec records `ms` denote.
pub open spec fn maps_match(v: Seq<MemoryMap>, ms: Seq<SpecMapRec>) -> bool {
    &&& v.len() == ms.len()
    &&& forall|i: int| 0 <= i < v.len() ==> map_matches(#[trigger] v[i], ms[i])
}

/// Parse a whole memory-map text, one record per line.
///
/// Rejecting any line rejects the text, as a map-parse error.  Every record
/// of an accepted text satisfies [`MemoryMap::wf`] and has an empty payload.
pub fn parse_memory_maps(text: &str) -> (r: Result<Vec<MemoryMap>, ProcError>)
    ensures
        match spec_parse_all(spec_lines(bytes_of(text))) {
            Some(ms) => match r {
                Ok(v) => maps_match(v@, ms),
                Err(e) => !all_labels_utf8(ms) && e == ProcError::MapParse,
            },
            None => r == Err::<Vec<MemoryMap>, ProcError>(ProcError::MapParse),
        },
        r matches Ok(v) ==> forall|i: int| 0 <= i < v@.len() ==> (#[trigger] v@[i]).wf(),
{
    let b = text.as_bytes();
    proof {
        assert(b@.subrange(0, b@.len() as int) =~= b@);
    }
    parse_lines_from(b, 0)
}

fn parse_lines_from(b: &[u8], from: usize) -> (r: Result<Vec<MemoryMap>, ProcError>)
    requires
        from <= b@.len(),
    ensures
        match spec_parse_all(spec_lines(b@.subrange(from as int, b@.len() as int))) {
            Some(ms) => match r {
                Ok(v) => maps_match(v@, ms),
                Err(e) => !all_labels_utf8(ms) && e == ProcError::MapParse,
            },
            None => r == Err::<Vec<MemoryMap>, ProcError>(ProcError::MapParse),
        },
        r matches Ok(v) ==> forall|i: int| 0 <= i < v@.len() ==> (#[trigger] v@[i]).wf(),
    decreases b@.len() - from,
{
    let ghost sub = b@.subrange(from as int, b@.len() as int);
    if from == b.len() {
        proof {
            assert(sub.len() == 0);
        }
        return Ok(Vec::new());
    }
    let mut k: usize = from;
    while k < b.len() && b[k] != 10
        invariant
            from <= k <= b@.len(),
            forall|j: int| from <= j < k ==> !(nl_pred()(#[trigger] b@[j])),
        decreases b@.len() - k,
    {
        k = k + 1;
    }
    proof {
        assert forall|j: int| 0 <= j < k - from implies !(nl_pred()(#[trigger] sub[j])) by {
            assert(sub[j] == b@[from + j]);
        }
        if k < b.len() {
            assert(sub[k - from] == b@[k as int]);
        }
        lemma_idx_where_unique(sub, nl_pred(), k - from);
    }
    let line = sub_bytes(b, from, k);
    proof {
        assert(line@ =~= sub.take(k - from));
        if k == b.len() {
            assert(line@ =~= sub);
            assert(spec_lines(sub) =~= seq![sub]);
            assert(spec_lines(sub).drop_first() =~= Seq::<Seq<u8>>::empty());
        } else {
            assert(spec_lines(sub) =~= seq![sub.take(k - from)] + spec_lines(
                sub.subrange(k - from + 1, sub.len() as int),
            ));
        }
        assert(spec_lines(sub)[0] == line@);
    }
    let head = match parse_map_line_bytes(line.as_slice()) {
        Ok(mm) => mm,
        Err(e) => {
            proof {
                let lines = spec_lines(sub);
                if spec_parse_map_line(line@) is Some && spec_parse_all(lines) is Some {
                    let m = spec_parse_map_line(line@).unwrap();
                    let ms = spec_parse_all(lines).unwrap();
                    assert(ms[0] == m);
                    assert(!valid_utf8(ms[0].label));
                }
            }
            return Err(e);
        },
    };
    if k == b.len() {
        let mut v: Vec<MemoryMap> = Vec::new();
        v.push(head);
        proof {
            let ms = spec_parse_all(spec_lines(sub)).unwrap();
            assert(ms =~= seq![spec_parse_map_line(sub).unwrap()]);
        }
        return Ok(v);
    }
    let rest = parse_lines_from(b, k + 1);
    proof {
        assert(b@.subrange(k + 1, b@.len() as int) =~= sub.subrange(k - from + 1, sub.len() as int));
        assert(spec_lines(sub) =~= seq![sub.take(k - from)] + spec_lines(
            sub.subrange(k - from + 1, sub.len() as int),
        ));
        assert(spec_lines(sub)[0] == line@);
        assert(spec_lines(sub).drop_first() =~= spec_lines(
            sub.subrange(k - from + 1, sub.len() as int),
        ));
    }
    match rest {
        Ok(mut v) => {
            v.insert(0, head);
            proof {
                let ms = spec_parse_all(spec_lines(sub)).unwrap();
                assert(ms == seq![spec_parse_map_line(line@).unwrap()] + spec_parse_all(
                    spec_lines(sub).drop_first(),
                ).unwrap());
                assert(forall|i: int| 1 <= i < v@.len() ==> #[trigger] v@[i] == old_vec_at(v@, i));
            }
            Ok(v)
        },
        Err(e) => {
            proof {
                let tail_ms = spec_parse_all(spec_lines(sub).drop_first());
                if tail_ms is Some {
                    let ms = spec_parse_all(spec_lines(sub)).unwrap();
                    assert(ms.drop_first() =~= tail_ms.unwrap());
                    assert forall|i: int| 0 <= i < tail_ms.unwrap().len() implies ms[i + 1]
                        == tail_ms.unwrap()[i] by {}
                }
            }
            Err(e)
        },
    }
}

/// The element of `s` at `i`; a named form that keeps triggers tame in the
/// insertion proof above.
pub open spec fn old_vec_at(s: Seq<MemoryMap>, i: int) -> MemoryMap {
    s[i]
}

} // verus!

verus! {

use vstd::utf8::encode_utf8;

/// Whether a parsed label is exactly the `[vvar]` sentinel.
pub fn label_is_vvar(label: &String) -> (r: bool)
    ensures
        r == is_vvar_label(label@),
{
    let b = label.as_str().as_bytes();
    let r = b.len() == 6 && b[0] == 91 && b[1] == 118 && b[2] == 118 && b[3] == 97 && b[4] == 114
        && b[5] == 93;
    proof {
        let tb = seq![91u8, 118u8, 118u8, 97u8, 114u8, 93u8];
        assert(b@ == encode_utf8(label@));
        if r {
            assert(b@ =~= tb);
        }
        if b@ == tb {
            assert(b@.len() == 6 && b@[0] == 91 && b@[1] == 118 && b@[2] == 118 && b@[3] == 97
                && b@[4] == 114 && b@[5] == 93);
        }
    }
    r
}

/// Whether a parsed label is exactly `[vdso]`.
pub fn label_is_vdso(label: &String) -> (r: bool)
    ensures
        r == is_vdso_label(label@),
{
    let b = label.as_str().as_bytes();
    let r = b.len() == 6 && b[0] == 91 && b[1] == 118 && b[2] == 100 && b[3] == 115 && b[4] == 111
        && b[5] == 93;
    proof {
        let tb = seq![91u8, 118u8, 100u8, 115u8, 111u8, 93u8];
        assert(b@ == encode_utf8(label@));
        if r {
            assert(b@ =~= tb);
        }
        if b@ == tb {
            assert(b@.len() == 6 && b@[0] == 91 && b@[1] == 118 && b@[2] == 100 && b@[3] == 115
                && b@[4] == 111 && b@[5] == 93);
        }
    }
    r
}

} // verus!

verus! {

/// The NUL separator of command-line records.
pub open spec fn nul_pred() -> spec_fn(u8) -> bool {
    |b: u8| b == 0
}

/// The arguments of a NUL-separated command-line record: each argument
/// keeps its terminating NUL; trailing bytes after the last NUL are
/// dropped.
pub open spec fn spec_null_args(s: Seq<u8>) -> Seq<Seq<u8>>
    decreases s.len(),
{
    let i = idx_where(s, nul_pred());
    if 0 <= i < s.len() {
        seq![s.take(i + 1)] + spec_null_args(s.subrange(i + 1, s.len() as int))
    } else {
        Seq::empty()
    }
}

/// Split a command-line record into its NUL-terminated arguments.
pub fn split_null_args(buf: &[u8]) -> (r: Vec<Vec<u8>>)
    ensures
        r@.map_values(|v: Vec<u8>| v@) == spec_null_args(buf@),
{
    let r = split_null_args_from(buf, 0);
    proof {
        assert(buf@.subrange(0, buf@.len() as int) =~= buf@);
    }
    r
}

fn split_null_args_from(buf: &[u8], from: usize) -> (r: Vec<Vec<u8>>)
    requires
        from <= buf@.len(),
    ensures
        r@.map_values(|v: Vec<u8>| v@) == spec_null_args(
            buf@.subrange(from as int, buf@.len() as int),
        ),
    decreases buf@.len() - from,
{
    let ghost sub = buf@.subrange(from as int, buf@.len() as int);
    let mut k: usize = from;
    while k < buf.len() && buf[k] != 0
        invariant
            from <= k <= buf@.len(),
            forall|j: int| from <= j < k ==> !(nul_pred()(#[trigger] buf@[j])),
        decreases buf@.len() - k,
    {
        k = k + 1;
    }
    proof {
        assert forall|j: int| 0 <= j < k - from implies !(nul_pred()(#[trigger] sub[j])) by {
            assert(sub[j] == buf@[from + j]);
        }
        if k < buf.len() {
            assert(sub[k - from] == buf@[k as int]);
        }
        lemma_idx_where_unique(sub, nul_pred(), k - from);
    }
    if k == buf.len() {
        proof {
            assert(spec_null_args(sub) =~= Seq::<Seq<u8>>::empty());
        }
        return Vec::new();
    }
    let head = sub_bytes(buf, from, k + 1);
    let mut r = split_null_args_from(buf, k + 1);
    r.insert(0, head);
    proof {
        assert(head@ =~= sub.take(k - from + 1));
        assert(buf@.subrange(k + 1, buf@.len() as int) =~= sub.subrange(
            k - from + 1,
            sub.len() as int,
        ));
        assert(r@.map_values(|v: Vec<u8>| v@) =~= seq![sub.take(k - from + 1)] + spec_null_args(
            sub.subrange(k - from + 1, sub.len() as int),
        ));
    }
    r
}

/// A trimmed label never keeps surrounding whitespace: it is empty, or
/// begins and ends with non-whitespace.  In particular a whitespace-only
/// label field parses to the empty label, never a whitespace-only one.
pub proof fn lemma_trim_ws_ends(s: Seq<u8>)
    ensures
        spec_trim_ws(s).len() == 0 || (!is_ws(spec_trim_ws(s)[0]) && !is_ws(
            spec_trim_ws(s).last(),
        )),
        (forall|j: int| 0 <= j < s.len() ==> is_ws(#[trigger] s[j])) ==> spec_trim_ws(s).len()
            == 0,
{
    lemma_idx_where(s, non_ws_pred());
    lemma_last_where(s, non_ws_pred());
    let a = idx_where(s, non_ws_pred());
    if a < s.len() {
        let z = last_where(s, non_ws_pred());
        assert(!is_ws(s[a]));
        if z < a {
            assert(!(non_ws_pred()(s[a])));
        }
        assert(z >= a);
        assert(spec_trim_ws(s)[0] == s[a]);
        assert(spec_trim_ws(s).last() == s[z]);
        assert(!is_ws(s[z]));
    }
}

} // verus!

verus! {

/// Every successfully parsed map record is page-aligned: its base address
/// is a multiple of the page size and its size is a positive multiple of
/// the page size.
pub proof fn lemma_parsed_record_aligned(s: Seq<u8>)
    ensures
        spec_parse_map_line(s) matches Some(m) ==> {
            &&& m.base as int % PAGE_SIZE as int == 0
            &&& m.size > 0
            &&& m.size as int % PAGE_SIZE as int == 0
        },
{
}

} // verus!

verus! {

use crate::terminals::{spec_hex_digits, spec_decimal_digits, u64_to_hex, u64_to_decimal};

/// One permission flag as text.
pub open spec fn spec_flag_char(set: bool, letter: char) -> char {
    if set {
        letter
    } else {
        '-'
    }
}

/// The one-line description of a map record: the address range in hex,
/// the size in decimal, the permission letters, and the label in
/// parentheses when there is one.
pub open spec fn spec_map_description(m: MemoryMap) -> Seq<char> {
    "mapping from 0x"@ + spec_hex_digits(m.base_address as nat) + " to 0x"@ + spec_hex_digits(
        (m.base_address + m.size) as nat,
    ) + " (size="@ + spec_decimal_digits(m.size as nat) + ") "@ + seq![
        spec_flag_char(m.readable, 'r'),
        spec_flag_char(m.writable, 'w'),
        spec_flag_char(m.executable, 'x'),
        spec_flag_char(m.private, 'p'),
    ] + (if m.label@.len() == 0 {
        Seq::<char>::empty()
    } else {
        " ("@ + m.label@ + ")"@
    })
}

fn flag_str(set: bool, on: &'static str) -> (r: &'static str)
    ensures
        set ==> r@ == on@,
        !set ==> r@ == "-"@,
{
    if set {
        on
    } else {
        "-"
    }
}

impl MemoryMap {
    /// Render the record on one line.
    pub fn describe(&self) -> (r: String)
        requires
            self.base_address + self.size <= u64::MAX,
        ensures
            r@ == spec_map_description(*self),
    {
        proof {
            reveal_strlit("r");
            reveal_strlit("w");
            reveal_strlit("x");
            reveal_strlit("p");
            reveal_strlit("-");
        }
        let mut s: String = "mapping from 0x".to_owned();
        let base_hex = u64_to_hex(self.base_address);
        s.append(base_hex.as_str());
        s.append(" to 0x");
        let end_hex = u64_to_hex(self.base_address + self.size);
        s.append(end_hex.as_str());
        s.append(" (size=");
        let size_dec = u64_to_decimal(self.size);
        s.append(size_dec.as_str());
        s.append(") ");
        s.append(flag_str(self.readable, "r"));
        s.append(flag_str(self.writable, "w"));
        s.append(flag_str(self.executable, "x"));
        s.append(flag_str(self.private, "p"));
        let ghost flags = seq![
            spec_flag_char(self.readable, 'r'),
            spec_flag_char(self.writable, 'w'),
            spec_flag_char(self.executable, 'x'),
            spec_flag_char(self.private, 'p'),
        ];
        proof {
            assert(seq![spec_flag_char(self.readable, 'r')] + seq![
                spec_flag_char(self.writable, 'w'),
            ] + seq![spec_flag_char(self.executable, 'x')] + seq![
                spec_flag_char(self.private, 'p'),
            ] =~= flags);
            assert(s@ =~= "mapping from 0x"@ + spec_hex_digits(self.base_address as nat)
                + " to 0x"@ + spec_hex_digits((self.base_address + self.size) as nat) + " (size="@
                + spec_decimal_digits(self.size as nat) + ") "@ + flags);
        }
        if !self.label.as_str().is_empty() {
            s.append(" (");
            s.append(self.label.as_str());
            s.append(")");
            proof {
                assert(s@ =~= spec_map_description(*self));
            }
        } else {
            proof {
                assert(s@ + Seq::<char>::empty() =~= s@);
                assert(s@ =~= spec_map_description(*self));
            }
        }
        s
    }
}

} // verus!

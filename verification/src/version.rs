use vstd::prelude::*;
use vstd::slice::slice_subrange;
use vstd::utf8::valid_utf8;

use crate::error::ResolveError;

verus! {

/// Offset of the version text window in the image header.
pub const VERSION_OFFSET: usize = 0x286;

/// Length of the version text window, in bytes.
pub const VERSION_LEN: usize = 0x7a;

/// First byte past the version window (`VERSION_OFFSET + VERSION_LEN`).
pub const VERSION_END: usize = 0x300;

/// The version window: the fixed byte range of the image holding the version
/// text.
pub open spec fn version_window(s: Seq<u8>) -> Seq<u8>
    recommends
        s.len() >= VERSION_END,
{
    s.subrange(VERSION_OFFSET as int, VERSION_END as int)
}

/// ASCII decimal digit.
pub open spec fn is_digit(b: u8) -> bool {
    '0' as u8 <= b <= '9' as u8
}

/// Every byte of `s` is an ASCII decimal digit.
pub open spec fn all_digits(s: Seq<u8>) -> bool {
    forall|i: int| 0 <= i < s.len() ==> is_digit(s[i])
}

/// Value of a string of decimal digits, most significant digit first.
pub open spec fn dec_value(s: Seq<u8>) -> int
    recommends
        all_digits(s),
    decreases s.len(),
{
    if s.len() == 0 {
        0
    } else {
        10 * dec_value(s.drop_last()) + (s.last() - ('0' as u8))
    }
}

/// Length of the leading component of `s`, up to but not including the first
/// `.`; the whole of `s` when no `.` occurs.
pub open spec fn first_component_len(s: Seq<u8>) -> int
    decreases s.len(),
{
    if s.len() == 0 {
        0
    } else if s[0] == '.' as u8 {
        0
    } else {
        1 + first_component_len(s.skip(1))
    }
}

/// The leading component ends at the first `.` of `s`, or at its end.
pub proof fn lemma_first_component_len(s: Seq<u8>)
    ensures
        0 <= first_component_len(s) <= s.len(),
        forall|i: int| 0 <= i < first_component_len(s) ==> s[i] != '.' as u8,
        first_component_len(s) < s.len() ==> s[first_component_len(s)] == '.' as u8,
    decreases s.len(),
{
    if s.len() > 0 && s[0] != '.' as u8 {
        lemma_first_component_len(s.skip(1));
        let m = first_component_len(s);
        assert forall|i: int| 0 <= i < m implies s[i] != '.' as u8 by {
            if i > 0 {
                assert(s.skip(1)[i - 1] == s[i]);
            }
        }
        if m < s.len() {
            assert(s.skip(1)[m - 1] == s[m]);
        }
    }
}

/// The leading dot-separated component of the version text.
pub open spec fn first_component(s: Seq<u8>) -> Seq<u8> {
    s.take(first_component_len(s))
}

/// The digit string of a component: one optional leading `+` sign is
/// accepted, as the unsigned-integer grammar of Rust's parser has it.
pub open spec fn digits_part(c: Seq<u8>) -> Seq<u8> {
    if c.len() > 0 && c[0] == '+' as u8 {
        c.skip(1)
    } else {
        c
    }
}

/// The version text parses when the digit string of its leading component is
/// non-empty, all decimal digits, and denotes a value that fits in 64 bits.
pub open spec fn parses_as_major(w: Seq<u8>) -> bool {
    let d = digits_part(first_component(w));
    d.len() > 0 && all_digits(d) && dec_value(d) <= u64::MAX
}

/// The parsed major version of the version text.
pub open spec fn major_of(w: Seq<u8>) -> int {
    dec_value(digits_part(first_component(w)))
}

/// The value of a digit string is never negative.
pub proof fn lemma_dec_value_nonneg(s: Seq<u8>)
    requires
        all_digits(s),
    ensures
        dec_value(s) >= 0,
    decreases s.len(),
{
    if s.len() > 0 {
        assert(all_digits(s.drop_last()));
        lemma_dec_value_nonneg(s.drop_last());
    }
}

/// Appending further digits never decreases the value of a digit string.
pub proof fn lemma_dec_value_prefix(s: Seq<u8>, k: int)
    requires
        all_digits(s),
        0 <= k <= s.len(),
    ensures
        dec_value(s.take(k)) <= dec_value(s),
    decreases s.len() - k,
{
    if k < s.len() {
        lemma_dec_value_prefix(s, k + 1);
        let t = s.take(k + 1);
        assert(t.drop_last() =~= s.take(k));
        assert(t.last() == s[k]);
        assert(all_digits(s.take(k)));
        lemma_dec_value_nonneg(s.take(k));
    } else {
        assert(s.take(k) =~= s);
    }
}

/// Relies on core::str::from_utf8, which returns `Ok` exactly when the bytes
/// are valid UTF-8 text, as vstd's `valid_utf8` states it.
#[verifier::external_body]
fn utf8_check(bytes: &[u8]) -> (r: bool)
    ensures
        r == valid_utf8(bytes@),
{
    core::str::from_utf8(bytes).is_ok()
}

/// Parses the major version out of the version window: the digits of the
/// leading dot-separated component, as an unsigned 64-bit integer. `None`
/// when the component is empty, holds a non-digit, or overflows 64 bits.
fn parse_major(win: &[u8]) -> (r: Option<u64>)
    ensures
        r is Some <==> parses_as_major(win@),
        r is Some ==> r->Some_0 == major_of(win@),
{
    let n = win.len();
    let mut j: usize = 0;
    while j < n && win[j] != '.' as u8
        invariant
            n == win@.len(),
            j <= n,
            forall|i: int| 0 <= i < j ==> win@[i] != '.' as u8,
        decreases n - j,
    {
        j += 1;
    }
    proof {
        lemma_first_component_len(win@);
        assert(j == first_component_len(win@));
        assert(first_component(win@) =~= win@.subrange(0, j as int));
    }
    let start: usize = if j > 0 && win[0] == '+' as u8 {
        1
    } else {
        0
    };
    proof {
        assert(digits_part(first_component(win@)) =~= win@.subrange(start as int, j as int));
    }
    if j == start {
        return None;
    }
    let mut acc: u64 = 0;
    let mut i: usize = start;
    while i < j
        invariant
            n == win@.len(),
            start <= i <= j <= n,
            j > start,
            forall|k: int| start <= k < i ==> is_digit(win@[k]),
            acc == dec_value(win@.subrange(start as int, i as int)),
            digits_part(first_component(win@)) == win@.subrange(start as int, j as int),
        decreases j - i,
    {
        let b = win[i];
        if b < '0' as u8 || b > '9' as u8 {
            proof {
                let d = digits_part(first_component(win@));
                assert(d[i - start] == win@[i as int]);
            }
            return None;
        }
        let digit = (b - '0' as u8) as u64;
        proof {
            let pre = win@.subrange(start as int, i as int);
            let ext = win@.subrange(start as int, i + 1);
            assert(ext.drop_last() =~= pre);
            assert(ext.last() == win@[i as int]);
            assert(dec_value(ext) == 10 * acc + digit);
        }
        let acc10 = match acc.checked_mul(10) {
            Some(v) => v,
            None => {
                proof {
                    lemma_parse_overflow(win@, start as int, i as int, j as int);
                }
                return None;
            },
        };
        let acc2 = match acc10.checked_add(digit) {
            Some(v) => v,
            None => {
                proof {
                    lemma_parse_overflow(win@, start as int, i as int, j as int);
                }
                return None;
            },
        };
        acc = acc2;
        i += 1;
    }
    proof {
        let d = digits_part(first_component(win@));
        assert forall|k: int| 0 <= k < d.len() implies is_digit(d[k]) by {
            assert(d[k] == win@[start + k]);
        }
        assert(parses_as_major(win@));
    }
    Some(acc)
}

/// When one more digit overflows 64 bits, the whole digit string does not
/// parse: its value can only grow with further digits.
proof fn lemma_parse_overflow(w: Seq<u8>, start: int, i: int, j: int)
    requires
        0 <= start <= i < j <= w.len(),
        digits_part(first_component(w)) == w.subrange(start, j),
        is_digit(w[i]),
        forall|k: int| start <= k < i ==> is_digit(w[k]),
        dec_value(w.subrange(start, i + 1)) > u64::MAX,
    ensures
        !parses_as_major(w),
{
    let d = digits_part(first_component(w));
    if all_digits(d) {
        let ext = w.subrange(start, i + 1);
        assert(ext =~= d.take(i + 1 - start));
        lemma_dec_value_prefix(d, i + 1 - start);
    } else {
        assert(!parses_as_major(w));
    }
}

/// The outcome of version extraction and parsing on the whole image:
/// `Truncated` when the image cannot hold the version window,
/// `InvalidVersionEncoding` when the window is not UTF-8,
/// `InvalidVersionFormat` when its leading component is not an unsigned
/// integer, and the major version otherwise.
pub open spec fn version_major_result(s: Seq<u8>) -> Result<u64, ResolveError> {
    if s.len() < VERSION_END {
        Err(ResolveError::Truncated)
    } else {
        let w = version_window(s);
        if !valid_utf8(w) {
            Err(ResolveError::InvalidVersionEncoding)
        } else if !parses_as_major(w) {
            Err(ResolveError::InvalidVersionFormat)
        } else {
            Ok(major_of(w) as u64)
        }
    }
}

/// Reads the version window of the image, checks that it decodes as UTF-8
/// text, and parses the leading dot-separated component as the major
/// version.
pub fn version_major(image: &[u8]) -> (r: Result<u64, ResolveError>)
    ensures
        r == version_major_result(image@),
{
    if image.len() < VERSION_END {
        return Err(ResolveError::Truncated);
    }
    let win = slice_subrange(image, VERSION_OFFSET, VERSION_END);
    if !utf8_check(win) {
        return Err(ResolveError::InvalidVersionEncoding);
    }
    match parse_major(win) {
        None => Err(ResolveError::InvalidVersionFormat),
        Some(m) => Ok(m),
    }
}

} // verus!

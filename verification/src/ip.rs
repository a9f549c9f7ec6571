//! Conversion of a dotted-decimal IPv4 literal into an unsigned 32-bit
//! integer whose magnitude order is the natural order of addresses.

use vstd::prelude::*;
use vstd::string::StrSliceExecFns;

use crate::error::LookupError;

verus! {

/// Whether `c` is a decimal digit.
pub open spec fn is_digit(c: char) -> bool {
    48 <= c as int && c as int <= 57
}

/// The value of the decimal digit `c`.
pub open spec fn digit_val(c: char) -> int {
    c as int - 48
}

/// The numeric value of a one-, two- or three-digit decimal literal.
pub open spec fn octet_val(s: Seq<char>) -> int {
    if s.len() == 1 {
        digit_val(s[0])
    } else if s.len() == 2 {
        10 * digit_val(s[0]) + digit_val(s[1])
    } else if s.len() == 3 {
        100 * digit_val(s[0]) + 10 * digit_val(s[1]) + digit_val(s[2])
    } else {
        -1
    }
}

/// Whether `s` is the standard textual form of one octet: one to three
/// decimal digits, no leading zero, value at most 255.
pub open spec fn is_octet(s: Seq<char>) -> bool {
    &&& 1 <= s.len() <= 3
    &&& (forall|i: int| 0 <= i < s.len() ==> is_digit(#[trigger] s[i]))
    &&& (s.len() > 1 ==> s[0] != '0')
    &&& octet_val(s) <= 255
}

/// The position of the first `'.'` at or after `from`, or `s.len()` when
/// there is none.
pub open spec fn find_dot(s: Seq<char>, from: int) -> int
    decreases s.len() - from,
{
    if from < 0 || from >= s.len() {
        s.len() as int
    } else if s[from] == '.' {
        from
    } else {
        find_dot(s, from + 1)
    }
}

/// `find_dot` lands on the first dot at or after `from`: it stays within
/// `[from, s.len()]`, points at a dot unless it is `s.len()`, and everything
/// before it is not a dot.
pub proof fn lemma_find_dot(s: Seq<char>, from: int)
    requires
        0 <= from <= s.len(),
    ensures
        from <= find_dot(s, from) <= s.len(),
        find_dot(s, from) < s.len() ==> s[find_dot(s, from)] == '.',
        forall|j: int| from <= j < find_dot(s, from) ==> s[j] != '.',
    decreases s.len() - from,
{
    if from < s.len() && s[from] != '.' {
        lemma_find_dot(s, from + 1);
    }
}

/// Four octets packed into one integer, the first octet most significant.
pub open spec fn pack_octets(a: int, b: int, c: int, d: int) -> int {
    a * 0x1000000 + b * 0x10000 + c * 0x100 + d
}

/// Packing the octets with the first most significant preserves the natural
/// order of IPv4 addresses: two packed values compare as their octet
/// sequences compare lexicographically.
pub proof fn lemma_pack_preserves_order(
    a1: int, a2: int, a3: int, a4: int,
    b1: int, b2: int, b3: int, b4: int,
)
    requires
        0 <= a1 <= 255, 0 <= a2 <= 255, 0 <= a3 <= 255, 0 <= a4 <= 255,
        0 <= b1 <= 255, 0 <= b2 <= 255, 0 <= b3 <= 255, 0 <= b4 <= 255,
    ensures
        pack_octets(a1, a2, a3, a4) < pack_octets(b1, b2, b3, b4) <==> (a1 < b1 || (a1 == b1 && (
        a2 < b2 || (a2 == b2 && (a3 < b3 || (a3 == b3 && a4 < b4)))))),
{
}

/// The address denoted by the dotted-decimal IPv4 literal `s`, with the first
/// octet in the most significant byte, or `None` when `s` is not exactly four
/// dot-separated octets in standard form.
pub open spec fn parse_ipv4(s: Seq<char>) -> Option<u32> {
    let d1 = find_dot(s, 0);
    let d2 = find_dot(s, d1 + 1);
    let d3 = find_dot(s, d2 + 1);
    if d1 < s.len() && d2 < s.len() && d3 < s.len() && find_dot(s, d3 + 1) == s.len()
        && is_octet(s.subrange(0, d1)) && is_octet(s.subrange(d1 + 1, d2)) && is_octet(
        s.subrange(d2 + 1, d3),
    ) && is_octet(s.subrange(d3 + 1, s.len() as int)) {
        Some(
            pack_octets(
                octet_val(s.subrange(0, d1)),
                octet_val(s.subrange(d1 + 1, d2)),
                octet_val(s.subrange(d2 + 1, d3)),
                octet_val(s.subrange(d3 + 1, s.len() as int)),
            ) as u32,
        )
    } else {
        None
    }
}

/// Finds the first `'.'` at or after `from`, returning `len` when none is
/// left.
fn find_dot_exec(s: &str, from: usize, len: usize) -> (r: usize)
    requires
        len == s@.len(),
        from <= len,
    ensures
        r == find_dot(s@, from as int),
        from <= r <= len,
{
    proof {
        lemma_find_dot(s@, from as int);
    }
    let mut i = from;
    while i < len
        invariant
            from <= i <= len == s@.len(),
            find_dot(s@, from as int) == find_dot(s@, i as int),
        decreases len - i,
    {
        if s.get_char(i) == '.' {
            return i;
        }
        i = i + 1;
    }
    len
}

/// Parses `s[start..end]` as one octet in standard form.
fn parse_octet_exec(s: &str, start: usize, end: usize, len: usize) -> (r: Option<u32>)
    requires
        len == s@.len(),
        start <= end <= len,
    ensures
        match r {
            Some(v) => is_octet(s@.subrange(start as int, end as int)) && v == octet_val(
                s@.subrange(start as int, end as int),
            ),
            None => !is_octet(s@.subrange(start as int, end as int)),
        },
{
    let ghost seg = s@.subrange(start as int, end as int);
    let n = end - start;
    if n < 1 || n > 3 {
        return None;
    }
    let mut v: u32 = 0;
    let mut i: usize = 0;
    while i < n
        invariant
            0 <= i <= n <= 3,
            start + n == end <= len == s@.len(),
            seg == s@.subrange(start as int, end as int),
            forall|j: int| 0 <= j < i ==> is_digit(#[trigger] seg[j]),
            i == 0 ==> v == 0,
            i == 1 ==> v == digit_val(seg[0]),
            i == 2 ==> v == 10 * digit_val(seg[0]) + digit_val(seg[1]),
            i == 3 ==> v == 100 * digit_val(seg[0]) + 10 * digit_val(seg[1]) + digit_val(seg[2]),
            v < 1000,
        decreases n - i,
    {
        let c = s.get_char(start + i);
        assert(c == seg[i as int]);
        let d = c as u32;
        if d < 48 || d > 57 {
            assert(!is_digit(seg[i as int]));
            return None;
        }
        v = v * 10 + (d - 48);
        i = i + 1;
    }
    if n > 1 && s.get_char(start) as u32 == 48 {
        assert(seg[0] == '0');
        return None;
    }
    if v > 255 {
        return None;
    }
    assert(is_octet(seg));
    Some(v)
}

/// Parses a dotted-decimal IPv4 literal into the 32-bit integer that packs
/// its four octets with the first octet most significant, so that the numeric
/// order of the results is the natural order of addresses. Any malformed
/// literal is rejected as `InvalidAddress`.
pub fn ip_to_u32(ip: &str) -> (r: Result<u32, LookupError>)
    ensures
        match parse_ipv4(ip@) {
            Some(v) => r matches Ok(u) && u == v,
            None => r matches Err(e) && e == LookupError::InvalidAddress,
        },
{
    let len = ip.unicode_len();
    let d1 = find_dot_exec(ip, 0, len);
    if d1 == len {
        return Err(LookupError::InvalidAddress);
    }
    let d2 = find_dot_exec(ip, d1 + 1, len);
    if d2 == len {
        return Err(LookupError::InvalidAddress);
    }
    let d3 = find_dot_exec(ip, d2 + 1, len);
    if d3 == len {
        return Err(LookupError::InvalidAddress);
    }
    let d4 = find_dot_exec(ip, d3 + 1, len);
    if d4 != len {
        return Err(LookupError::InvalidAddress);
    }
    let a = match parse_octet_exec(ip, 0, d1, len) {
        Some(v) => v,
        None => {
            return Err(LookupError::InvalidAddress);
        },
    };
    let b = match parse_octet_exec(ip, d1 + 1, d2, len) {
        Some(v) => v,
        None => {
            return Err(LookupError::InvalidAddress);
        },
    };
    let c = match parse_octet_exec(ip, d2 + 1, d3, len) {
        Some(v) => v,
        None => {
            return Err(LookupError::InvalidAddress);
        },
    };
    let d = match parse_octet_exec(ip, d3 + 1, len, len) {
        Some(v) => v,
        None => {
            return Err(LookupError::InvalidAddress);
        },
    };
    Ok(a * 0x1000000 + b * 0x10000 + c * 0x100 + d)
}

} // verus!

//! Binary search over the fixed-stride index table: the mathematical model of
//! the search, and what it finds on a well-formed table.

use vstd::prelude::*;

use crate::reader::{u24_le_at, u32_le_at};

verus! {

/// The number of 7-byte records in an index table delimited by
/// `[index_start, index_end]`.
pub open spec fn index_count(index_start: int, index_end: int) -> int {
    (index_end - index_start) / 7 + 1
}

/// The first address of the range described by index record `i`.
pub open spec fn entry_start_ip(buf: Seq<u8>, index_start: int, i: int) -> u32 {
    u32_le_at(buf, index_start + 7 * i)
}

/// The record-body offset stored in index record `i`.
pub open spec fn entry_rec_off(buf: Seq<u8>, index_start: int, i: int) -> u32 {
    u24_le_at(buf, index_start + 7 * i + 4)
}

/// The last address of the range described by index record `i`, stored in the
/// first 4 bytes at the record-body offset.
pub open spec fn entry_end_ip(buf: Seq<u8>, index_start: int, i: int) -> u32 {
    u32_le_at(buf, entry_rec_off(buf, index_start, i) as int)
}

/// Whether address `ip` falls inside the range of index record `i`.
pub open spec fn covers(buf: Seq<u8>, index_start: int, i: int, ip: u32) -> bool {
    entry_start_ip(buf, index_start, i) <= ip && ip <= entry_end_ip(buf, index_start, i)
}

/// Whether index record `i` and the 4-byte range-end marker it points to lie
/// inside the buffer, with a nonzero record offset (0 is the not-found
/// sentinel, never a valid offset).
pub open spec fn entry_in_bounds(buf: Seq<u8>, index_start: int, i: int) -> bool {
    &&& index_start + 7 * i + 7 <= buf.len()
    &&& entry_rec_off(buf, index_start, i) != 0
    &&& entry_rec_off(buf, index_start, i) + 4 <= buf.len()
}

/// A well-formed index table: every record is in bounds, every range runs
/// upward, and the ranges are sorted and pairwise disjoint.
pub open spec fn table_wf(buf: Seq<u8>, index_start: int, index_end: int) -> bool {
    let n = index_count(index_start, index_end);
    &&& 0 <= index_start <= index_end
    &&& forall|i: int| 0 <= i < n ==> entry_in_bounds(buf, index_start, i)
    &&& forall|i: int|
        0 <= i < n ==> entry_start_ip(buf, index_start, i) <= entry_end_ip(buf, index_start, i)
    &&& forall|i: int, j: int|
        0 <= i < j < n ==> entry_end_ip(buf, index_start, i) < entry_start_ip(buf, index_start, j)
}

/// The exact outcome of the binary search over records `left..=right`:
/// `Some(0)` when no range matched, `Some(off)` with the matching record's
/// nonzero body offset otherwise, and `None` when a probed position would
/// leave the buffer.
pub open spec fn spec_search(buf: Seq<u8>, index_start: int, ip: u32, left: int, right: int) -> Option<int>
    decreases right + 1 - left,
{
    if left > right {
        Some(0)
    } else {
        let mid = (left + right) / 2;
        let off = index_start + 7 * mid;
        if off < 0 || off + 7 > buf.len() {
            None
        } else {
            let start_ip = entry_start_ip(buf, index_start, mid);
            let rec = entry_rec_off(buf, index_start, mid) as int;
            if rec + 4 > buf.len() {
                None
            } else {
                let end_ip = u32_le_at(buf, rec);
                if ip < start_ip {
                    if mid == 0 {
                        Some(0)
                    } else {
                        spec_search(buf, index_start, ip, left, mid - 1)
                    }
                } else if ip > end_ip {
                    spec_search(buf, index_start, ip, mid + 1, right)
                } else {
                    Some(rec)
                }
            }
        }
    }
}

/// The search over the whole table: an inverted table (`index_end` before
/// `index_start`) has no records and finds nothing.
pub open spec fn spec_search_top(buf: Seq<u8>, index_start: int, index_end: int, ip: u32) -> Option<
    int,
> {
    if index_end < index_start {
        Some(0)
    } else {
        spec_search(buf, index_start, ip, 0, (index_end - index_start) / 7)
    }
}

/// On a well-formed table, the search over `left..=right` never leaves the
/// buffer; it returns the body offset of the record covering `ip` when that
/// record lies in `left..=right`, and 0 when no record at all covers `ip`.
proof fn lemma_search_in_range(
    buf: Seq<u8>,
    index_start: int,
    index_end: int,
    ip: u32,
    left: int,
    right: int,
)
    requires
        table_wf(buf, index_start, index_end),
        0 <= left,
        right < index_count(index_start, index_end),
        forall|i: int|
            0 <= i < index_count(index_start, index_end) && covers(buf, index_start, i, ip)
                ==> left <= i <= right,
    ensures
        match spec_search(buf, index_start, ip, left, right) {
            Some(r) => if r == 0 {
                forall|i: int|
                    0 <= i < index_count(index_start, index_end) ==> !covers(buf, index_start, i, ip)
            } else {
                exists|i: int|
                    0 <= i < index_count(index_start, index_end) && covers(buf, index_start, i, ip)
                        && r == entry_rec_off(buf, index_start, i)
            },
            None => false,
        },
    decreases right + 1 - left,
{
    let n = index_count(index_start, index_end);
    if left > right {
        assert forall|i: int| 0 <= i < n implies !covers(buf, index_start, i, ip) by {
            if covers(buf, index_start, i, ip) {
                assert(left <= i <= right);
            }
        }
    } else {
        let mid = (left + right) / 2;
        assert(left <= mid <= right);
        assert(entry_in_bounds(buf, index_start, mid));
        let start_ip = entry_start_ip(buf, index_start, mid);
        let end_ip = entry_end_ip(buf, index_start, mid);
        if ip < start_ip {
            assert forall|i: int|
                0 <= i < n && covers(buf, index_start, i, ip) implies i < mid by {
                if i > mid {
                    assert(entry_end_ip(buf, index_start, mid) < entry_start_ip(buf, index_start, i));
                }
            }
            if mid == 0 {
                assert forall|i: int| 0 <= i < n implies !covers(buf, index_start, i, ip) by {
                    if covers(buf, index_start, i, ip) {
                        assert(i < 0);
                    }
                }
            } else {
                lemma_search_in_range(buf, index_start, index_end, ip, left, mid - 1);
            }
        } else if ip > end_ip {
            assert forall|i: int|
                0 <= i < n && covers(buf, index_start, i, ip) implies i > mid by {
                if i < mid {
                    assert(entry_end_ip(buf, index_start, i) < entry_start_ip(buf, index_start, mid));
                }
            }
            lemma_search_in_range(buf, index_start, index_end, ip, mid + 1, right);
        } else {
            assert(covers(buf, index_start, mid, ip));
        }
    }
}

/// On a well-formed table, the search finds the covering record's body offset
/// exactly when some record covers `ip`, returns the 0 sentinel exactly when
/// none does, and never leaves the buffer.
pub proof fn lemma_search_top_correct(buf: Seq<u8>, index_start: int, index_end: int, ip: u32)
    requires
        table_wf(buf, index_start, index_end),
    ensures
        match spec_search_top(buf, index_start, index_end, ip) {
            Some(r) => if r == 0 {
                forall|i: int|
                    0 <= i < index_count(index_start, index_end) ==> !covers(buf, index_start, i, ip)
            } else {
                exists|i: int|
                    0 <= i < index_count(index_start, index_end) && covers(buf, index_start, i, ip)
                        && r == entry_rec_off(buf, index_start, i)
            },
            None => false,
        },
{
    let n = index_count(index_start, index_end);
    assert(n >= 1) by {
        assert(index_end - index_start >= 0);
        assert((index_end - index_start) / 7 >= 0);
    }
    lemma_search_in_range(buf, index_start, index_end, ip, 0, n - 1);
}

/// At most one record of a well-formed table covers a given address.
pub proof fn lemma_cover_unique(
    buf: Seq<u8>,
    index_start: int,
    index_end: int,
    ip: u32,
    i: int,
    j: int,
)
    requires
        table_wf(buf, index_start, index_end),
        0 <= i < index_count(index_start, index_end),
        0 <= j < index_count(index_start, index_end),
        covers(buf, index_start, i, ip),
        covers(buf, index_start, j, ip),
    ensures
        i == j,
{
    if i < j {
        assert(entry_end_ip(buf, index_start, i) < entry_start_ip(buf, index_start, j));
    }
    if j < i {
        assert(entry_end_ip(buf, index_start, j) < entry_start_ip(buf, index_start, i));
    }
}

} // verus!

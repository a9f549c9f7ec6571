//! Laws of the lookup as a whole: determinism of repeated lookups, and
//! agreement of lookups that fall in the same index range.

use vstd::prelude::*;

use crate::db::{spec_lookup, spec_lookup_value};
use crate::error::LookupError;
use crate::record::spec_read_location;
use crate::search::{
    covers, entry_rec_off, index_count, lemma_cover_unique, lemma_search_top_correct,
    spec_search_top, table_wf,
};

verus! {

/// Lookup is idempotent. The contract of `Qqwry::lookup` pins its result to
/// `spec_lookup` of the buffer and the queried literal, the buffer never
/// changes after construction, and one spec value equals itself: any two
/// results of the same query on the same database are equal.
pub proof fn lemma_lookup_deterministic(
    buf: Seq<u8>,
    index_start: int,
    index_end: int,
    ip_text: Seq<char>,
    r1: Result<(Seq<char>, Seq<char>), LookupError>,
    r2: Result<(Seq<char>, Seq<char>), LookupError>,
)
    requires
        r1 == spec_lookup(buf, index_start, index_end, ip_text),
        r2 == spec_lookup(buf, index_start, index_end, ip_text),
    ensures
        r1 == r2,
{
}

/// On a well-formed table, the search resolves an address covered by index
/// record `i` to exactly that record's body offset.
pub proof fn lemma_search_resolves_cover(
    buf: Seq<u8>,
    index_start: int,
    index_end: int,
    ip: u32,
    i: int,
)
    requires
        table_wf(buf, index_start, index_end),
        0 <= i < index_count(index_start, index_end),
        covers(buf, index_start, i, ip),
    ensures
        spec_search_top(buf, index_start, index_end, ip) == Some(
            entry_rec_off(buf, index_start, i) as int,
        ),
{
    let n = index_count(index_start, index_end);
    lemma_search_top_correct(buf, index_start, index_end, ip);
    match spec_search_top(buf, index_start, index_end, ip) {
        Some(r) => {
            if r == 0 {
                assert(!covers(buf, index_start, i, ip));
            } else {
                let j = choose|j: int|
                    0 <= j < n && covers(buf, index_start, j, ip) && r == entry_rec_off(
                        buf,
                        index_start,
                        j,
                    );
                lemma_cover_unique(buf, index_start, index_end, ip, i, j);
            }
        },
        None => {},
    }
}

/// On a well-formed table, looking an address up never reports corruption: a
/// covered address yields exactly the decode of its record's body, so it
/// succeeds whenever that body decodes.
pub proof fn lemma_lookup_value_covered(
    buf: Seq<u8>,
    index_start: int,
    index_end: int,
    ip: u32,
    i: int,
)
    requires
        table_wf(buf, index_start, index_end),
        0 <= i < index_count(index_start, index_end),
        covers(buf, index_start, i, ip),
    ensures
        spec_lookup_value(buf, index_start, index_end, ip) == match spec_read_location(
            buf,
            entry_rec_off(buf, index_start, i) as int,
        ) {
            Some(pair) => Ok::<_, LookupError>(pair),
            None => Err(LookupError::CorruptData),
        },
{
    lemma_search_resolves_cover(buf, index_start, index_end, ip, i);
    assert(crate::search::entry_in_bounds(buf, index_start, i));
}

/// On a well-formed table, an address no range covers is reported as
/// `NotFound`, never as anything else.
pub proof fn lemma_lookup_value_uncovered(buf: Seq<u8>, index_start: int, index_end: int, ip: u32)
    requires
        table_wf(buf, index_start, index_end),
        forall|i: int|
            0 <= i < index_count(index_start, index_end) ==> !covers(buf, index_start, i, ip),
    ensures
        spec_lookup_value(buf, index_start, index_end, ip) == Err::<(Seq<char>, Seq<char>), _>(
            LookupError::NotFound,
        ),
{
    lemma_search_top_correct(buf, index_start, index_end, ip);
    match spec_search_top(buf, index_start, index_end, ip) {
        Some(r) => {
            if r != 0 {
                let j = choose|j: int|
                    0 <= j < index_count(index_start, index_end) && covers(buf, index_start, j, ip)
                        && r == entry_rec_off(buf, index_start, j);
                assert(!covers(buf, index_start, j, ip));
            }
        },
        None => {},
    }
}

/// Two addresses `a < b` inside the same index range resolve to the same
/// record offset, hence to the same location and info strings.
pub proof fn lemma_same_range_same_lookup(
    buf: Seq<u8>,
    index_start: int,
    index_end: int,
    a: u32,
    b: u32,
    i: int,
)
    requires
        table_wf(buf, index_start, index_end),
        a < b,
        0 <= i < index_count(index_start, index_end),
        covers(buf, index_start, i, a),
        covers(buf, index_start, i, b),
    ensures
        spec_lookup_value(buf, index_start, index_end, a) == spec_lookup_value(
            buf,
            index_start,
            index_end,
            b,
        ),
{
    lemma_search_resolves_cover(buf, index_start, index_end, a, i);
    lemma_search_resolves_cover(buf, index_start, index_end, b, i);
}

} // verus!

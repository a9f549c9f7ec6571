//! The mathematical model of the record decoder: what location and info
//! strings a record body denotes, and when it is corrupt.

use vstd::prelude::*;

use crate::reader::{spec_read_string, u24_le_at};

verus! {

/// The info (area/ISP) field read at `offset`: an initial zero byte means the
/// empty string; a 0x01 or 0x02 flag redirects through a 24-bit offset, where
/// 0 is a sentinel for the empty string; any other first byte starts an
/// inline string. Yields the text and the position after the field, or `None`
/// when an access would leave the buffer.
pub open spec fn spec_read_region(buf: Seq<u8>, offset: int) -> Option<(Seq<char>, int)> {
    if !(0 <= offset < buf.len()) {
        None
    } else if buf[offset] == 0 {
        Some((Seq::empty(), offset + 1))
    } else if buf[offset] == 1 || buf[offset] == 2 {
        if offset + 4 > buf.len() {
            None
        } else {
            let area_off = u24_le_at(buf, offset + 1) as int;
            if area_off == 0 {
                Some((Seq::empty(), offset + 4))
            } else {
                spec_read_string(buf, area_off)
            }
        }
    } else {
        spec_read_string(buf, offset)
    }
}

/// The location and info strings denoted by the record body at `offset`. The
/// body begins after the 4-byte range-end marker; its flag selects inline
/// text (any flag but 0x01/0x02), a full redirect (0x01, possibly onto a
/// nested 0x02 record), or a mixed record (0x02: the location is redirected,
/// the info field follows the original position). `None` when any implied
/// access would leave the buffer.
pub open spec fn spec_read_location(buf: Seq<u8>, offset: int) -> Option<(Seq<char>, Seq<char>)> {
    let pos = offset + 4;
    if !(0 <= offset && pos < buf.len()) {
        None
    } else if buf[pos] == 1 {
        if pos + 4 > buf.len() {
            None
        } else {
            let country_off = u24_le_at(buf, pos + 1) as int;
            if !(country_off < buf.len()) {
                None
            } else if buf[country_off] == 2 {
                if country_off + 4 > buf.len() {
                    None
                } else {
                    let country_off2 = u24_le_at(buf, country_off + 1) as int;
                    match spec_read_string(buf, country_off2) {
                        Some((location, _)) => match spec_read_region(buf, country_off + 4) {
                            Some((info, _)) => Some((location, info)),
                            None => None,
                        },
                        None => None,
                    }
                }
            } else {
                match spec_read_string(buf, country_off) {
                    Some((location, next)) => match spec_read_region(buf, next) {
                        Some((info, _)) => Some((location, info)),
                        None => None,
                    },
                    None => None,
                }
            }
        }
    } else if buf[pos] == 2 {
        if pos + 4 > buf.len() {
            None
        } else {
            let country_off = u24_le_at(buf, pos + 1) as int;
            match spec_read_string(buf, country_off) {
                Some((location, _)) => match spec_read_region(buf, pos + 4) {
                    Some((info, _)) => Some((location, info)),
                    None => None,
                },
                None => None,
            }
        }
    } else {
        match spec_read_string(buf, pos) {
            Some((location, next)) => match spec_read_region(buf, next) {
                Some((info, _)) => Some((location, info)),
                None => None,
            },
            None => None,
        }
    }
}

} // verus!

//! The database: the loaded buffer, the header bounds of the index table,
//! and the one public operation, `lookup`.

use vstd::prelude::*;

use crate::error::LookupError;
use crate::ip::{ip_to_u32, parse_ipv4};
use crate::reader::{read_string, read_u24, read_u32, u32_le_at};
use crate::record::{spec_read_location, spec_read_region};
use crate::search::{spec_search, spec_search_top};

verus! {

/// What a lookup of the already-parsed address `ip` yields on this buffer:
/// `NotFound` when the search comes back with the 0 sentinel, the decoded
/// record otherwise, and `CorruptData` wherever the file's own offsets would
/// lead outside the buffer.
pub open spec fn spec_lookup_value(
    buf: Seq<u8>,
    index_start: int,
    index_end: int,
    ip: u32,
) -> Result<(Seq<char>, Seq<char>), LookupError> {
    match spec_search_top(buf, index_start, index_end, ip) {
        None => Err(LookupError::CorruptData),
        Some(rec) => if rec == 0 {
            Err(LookupError::NotFound)
        } else {
            match spec_read_location(buf, rec) {
                Some(pair) => Ok(pair),
                None => Err(LookupError::CorruptData),
            }
        },
    }
}

/// What a lookup of the literal `ip_text` yields on this buffer: a malformed
/// literal is `InvalidAddress`, anything else is `spec_lookup_value` of the
/// parsed address.
pub open spec fn spec_lookup(
    buf: Seq<u8>,
    index_start: int,
    index_end: int,
    ip_text: Seq<char>,
) -> Result<(Seq<char>, Seq<char>), LookupError> {
    match parse_ipv4(ip_text) {
        None => Err(LookupError::InvalidAddress),
        Some(v) => spec_lookup_value(buf, index_start, index_end, v),
    }
}

/// The loaded database: an immutable byte buffer and the two header offsets
/// delimiting the index table. Nothing mutates it after construction, so one
/// instance can serve any number of concurrent lookups.
#[derive(Debug)]
pub struct Qqwry {
    data: Vec<u8>,
    index_start: usize,
    index_end: usize,
}

impl Qqwry {
    /// The database bytes.
    pub closed spec fn buf(self) -> Seq<u8> {
        self.data@
    }

    /// The inclusive start of the index table, as read from the header.
    pub closed spec fn istart(self) -> int {
        self.index_start as int
    }

    /// The inclusive end of the index table, as read from the header.
    pub closed spec fn iend(self) -> int {
        self.index_end as int
    }

    /// The header bounds are the ones stored in the first 8 bytes of the
    /// buffer. Constructors establish this; every instance keeps it.
    pub open spec fn wf(self) -> bool {
        &&& self.buf().len() >= 8
        &&& self.istart() == u32_le_at(self.buf(), 0) as int
        &&& self.iend() == u32_le_at(self.buf(), 4) as int
    }

    /// Takes the whole database file as one byte buffer and parses the
    /// 8-byte header into the index-table bounds. A buffer too short to hold
    /// the header is corrupt.
    pub fn new(data: Vec<u8>) -> (r: Result<Qqwry, LookupError>)
        ensures
            match r {
                Ok(db) => data@.len() >= 8 && db.buf() == data@ && db.wf(),
                Err(e) => e == LookupError::CorruptData && data@.len() < 8,
            },
    {
        if data.len() < 8 {
            return Err(LookupError::CorruptData);
        }
        let index_start = read_u32(data.as_slice(), 0) as usize;
        let index_end = read_u32(data.as_slice(), 4) as usize;
        Ok(Qqwry { data, index_start, index_end })
    }

    /// Reads the info (area/ISP) field at `offset`, returning the text and
    /// the position after the field.
    pub fn read_region(&self, offset: usize) -> (r: Result<(String, usize), LookupError>)
        ensures
            match spec_read_region(self.buf(), offset as int) {
                Some((text, next)) => r matches Ok(p) && p.0@ == text && p.1 == next,
                None => r matches Err(e) && e == LookupError::CorruptData,
            },
    {
        let buf = self.data.as_slice();
        let len = buf.len();
        if offset >= len {
            return Err(LookupError::CorruptData);
        }
        let flag = buf[offset];
        if flag == 0 {
            return Ok((String::new(), offset + 1));
        }
        if flag == 1 || flag == 2 {
            if len - offset < 4 {
                return Err(LookupError::CorruptData);
            }
            let area_offset = read_u24(buf, offset + 1) as usize;
            if area_offset == 0 {
                Ok((String::new(), offset + 4))
            } else {
                read_string(buf, area_offset)
            }
        } else {
            read_string(buf, offset)
        }
    }

    /// Binary search of the index table for the range holding `ip`. Returns
    /// the matching record's body offset, or 0 when no range holds `ip` (0 is
    /// never a valid offset). A probe that would leave the buffer is
    /// corruption.
    pub fn search_ip(&self, ip: u32) -> (r: Result<usize, LookupError>)
        requires
            self.wf(),
        ensures
            match spec_search_top(self.buf(), self.istart(), self.iend(), ip) {
                Some(o) => r matches Ok(v) && v == o,
                None => r matches Err(e) && e == LookupError::CorruptData,
            },
    {
        let index_start = self.index_start;
        let index_end = self.index_end;
        if index_end < index_start {
            return Ok(0);
        }
        let buf = self.data.as_slice();
        let len = buf.len();
        let diff = index_end - index_start;
        proof {
            vstd::arithmetic::div_mod::lemma_fundamental_div_mod(diff as int, 7);
        }
        let mut left: usize = 0;
        let mut right: usize = diff / 7;
        let ghost target = spec_search(self.buf(), self.istart(), ip, 0, (diff / 7) as int);
        while left <= right
            invariant
                self.wf(),
                buf@ == self.buf(),
                len == buf@.len(),
                index_start == self.istart(),
                index_end == self.iend(),
                index_start <= index_end,
                diff == index_end - index_start,
                spec_search_top(self.buf(), self.istart(), self.iend(), ip) == target,
                7 * ((diff as int) / 7) <= diff,
                left <= right + 1,
                right <= diff / 7,
                spec_search(self.buf(), self.istart(), ip, left as int, right as int) == target,
            decreases right + 1 - left,
        {
            let mid = (left + right) / 2;
            let off = index_start + mid * 7;
            if off > len || len - off < 7 {
                return Err(LookupError::CorruptData);
            }
            let start_ip = read_u32(buf, off);
            let rec = read_u24(buf, off + 4) as usize;
            if rec + 4 > len {
                return Err(LookupError::CorruptData);
            }
            let end_ip = read_u32(buf, rec);
            if ip < start_ip {
                if mid == 0 {
                    return Ok(0);
                }
                right = mid - 1;
            } else if ip > end_ip {
                left = mid + 1;
            } else {
                return Ok(rec);
            }
        }
        Ok(0)
    }

    /// Decodes the record body at `offset`: skips the 4-byte range-end
    /// marker, follows the flag-tagged redirects, and returns the location
    /// and info strings.
    pub fn read_location(&self, offset: usize) -> (r: Result<(String, String), LookupError>)
        ensures
            match spec_read_location(self.buf(), offset as int) {
                Some((location, info)) => r matches Ok(p) && p.0@ == location && p.1@ == info,
                None => r matches Err(e) && e == LookupError::CorruptData,
            },
    {
        let buf = self.data.as_slice();
        let len = buf.len();
        if offset > len || len - offset < 5 {
            return Err(LookupError::CorruptData);
        }
        let pos = offset + 4;
        let flag = buf[pos];
        if flag == 1 {
            if len - pos < 4 {
                return Err(LookupError::CorruptData);
            }
            let country_offset = read_u24(buf, pos + 1) as usize;
            if country_offset >= len {
                return Err(LookupError::CorruptData);
            }
            let flag2 = buf[country_offset];
            if flag2 == 2 {
                if len - country_offset < 4 {
                    return Err(LookupError::CorruptData);
                }
                let country_offset2 = read_u24(buf, country_offset + 1) as usize;
                let location = match read_string(buf, country_offset2) {
                    Ok(p) => p.0,
                    Err(e) => {
                        return Err(e);
                    },
                };
                let info = match self.read_region(country_offset + 4) {
                    Ok(p) => p.0,
                    Err(e) => {
                        return Err(e);
                    },
                };
                Ok((location, info))
            } else {
                let (location, next) = match read_string(buf, country_offset) {
                    Ok(p) => p,
                    Err(e) => {
                        return Err(e);
                    },
                };
                let info = match self.read_region(next) {
                    Ok(p) => p.0,
                    Err(e) => {
                        return Err(e);
                    },
                };
                Ok((location, info))
            }
        } else if flag == 2 {
            if len - pos < 4 {
                return Err(LookupError::CorruptData);
            }
            let country_offset = read_u24(buf, pos + 1) as usize;
            let location = match read_string(buf, country_offset) {
                Ok(p) => p.0,
                Err(e) => {
                    return Err(e);
                },
            };
            let info = match self.read_region(pos + 4) {
                Ok(p) => p.0,
                Err(e) => {
                    return Err(e);
                },
            };
            Ok((location, info))
        } else {
            let (location, next) = match read_string(buf, pos) {
                Ok(p) => p,
                Err(e) => {
                    return Err(e);
                },
            };
            let info = match self.read_region(next) {
                Ok(p) => p.0,
                Err(e) => {
                    return Err(e);
                },
            };
            Ok((location, info))
        }
    }

    /// Looks the literal `ip` up: parses it, searches the index table, and
    /// decodes the matching record into the location and info strings. The
    /// result is a function of the buffer and the literal alone, so repeated
    /// calls on one instance agree.
    pub fn lookup(&self, ip: &str) -> (r: Result<(String, String), LookupError>)
        requires
            self.wf(),
        ensures
            match spec_lookup(self.buf(), self.istart(), self.iend(), ip@) {
                Ok((location, info)) => r matches Ok(p) && p.0@ == location && p.1@ == info,
                Err(e) => r matches Err(e2) && e2 == e,
            },
    {
        let ip_u32 = match ip_to_u32(ip) {
            Ok(v) => v,
            Err(e) => {
                return Err(e);
            },
        };
        let record_offset = match self.search_ip(ip_u32) {
            Ok(o) => o,
            Err(e) => {
                return Err(e);
            },
        };
        if record_offset > 0 {
            self.read_location(record_offset)
        } else {
            Err(LookupError::NotFound)
        }
    }
}

} // verus!

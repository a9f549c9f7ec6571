//! Stateless helpers that interpret fixed-width little-endian integers and
//! null-terminated GBK text at arbitrary offsets inside an in-memory buffer.

use vstd::prelude::*;
use vstd::slice::slice_subrange;

use crate::error::LookupError;

verus! {

/// The longest null-terminated string the decoder accepts, in bytes. The
/// format addresses record bodies with 24-bit offsets, so no well-formed
/// string can be longer than the addressable area; anything longer is treated
/// as corruption.
pub const MAX_TEXT_LEN: usize = 0xFFFFFF;

/// The unsigned 32-bit integer stored little-endian at `pos`.
pub open spec fn u32_le_at(buf: Seq<u8>, pos: int) -> u32 {
    (buf[pos] + buf[pos + 1] * 0x100 + buf[pos + 2] * 0x10000 + buf[pos + 3] * 0x1000000) as u32
}

/// The unsigned 24-bit integer stored little-endian at `pos`, zero-extended.
pub open spec fn u24_le_at(buf: Seq<u8>, pos: int) -> u32 {
    (buf[pos] + buf[pos + 1] * 0x100 + buf[pos + 2] * 0x10000) as u32
}

/// Reads 4 little-endian bytes at `pos` as an unsigned 32-bit integer.
pub fn read_u32(buf: &[u8], pos: usize) -> (r: u32)
    requires
        pos + 4 <= buf@.len(),
    ensures
        r == u32_le_at(buf@, pos as int),
{
    let b0 = buf[pos] as u32;
    let b1 = buf[pos + 1] as u32;
    let b2 = buf[pos + 2] as u32;
    let b3 = buf[pos + 3] as u32;
    b0 + b1 * 0x100 + b2 * 0x10000 + b3 * 0x1000000
}

/// Reads 3 little-endian bytes at `pos`, zero-extended to 32 bits. All offset
/// fields of the format are stored this way, capping the addressable area at
/// 16 MiB - 1.
pub fn read_u24(buf: &[u8], pos: usize) -> (r: u32)
    requires
        pos + 3 <= buf@.len(),
    ensures
        r == u24_le_at(buf@, pos as int),
        r < 0x1000000,
{
    let b0 = buf[pos] as u32;
    let b1 = buf[pos + 1] as u32;
    let b2 = buf[pos + 2] as u32;
    b0 + b1 * 0x100 + b2 * 0x10000
}

/// The position of the first zero byte at or after `pos`, or `buf.len()` when
/// there is none before the end of the buffer.
pub open spec fn cstr_end(buf: Seq<u8>, pos: int) -> int
    decreases buf.len() - pos,
{
    if pos < 0 || pos >= buf.len() {
        buf.len() as int
    } else if buf[pos] == 0 {
        pos
    } else {
        cstr_end(buf, pos + 1)
    }
}

/// `cstr_end` lands on the first zero byte at or after `pos`: it stays within
/// `[pos, buf.len()]`, points at a zero byte unless it is `buf.len()`, and
/// everything before it is nonzero.
pub proof fn lemma_cstr_end(buf: Seq<u8>, pos: int)
    requires
        0 <= pos <= buf.len(),
    ensures
        pos <= cstr_end(buf, pos) <= buf.len(),
        cstr_end(buf, pos) < buf.len() ==> buf[cstr_end(buf, pos)] == 0,
        forall|j: int| pos <= j < cstr_end(buf, pos) ==> buf[j] != 0,
    decreases buf.len() - pos,
{
    if pos < buf.len() && buf[pos] != 0 {
        lemma_cstr_end(buf, pos + 1);
    }
}

/// The Unicode text that the GBK decoder yields for `bytes`.
pub uninterp spec fn gbk_decode(bytes: Seq<u8>) -> Seq<char>;

/// Relies on encoding_rs's `Encoding::decode` with the GBK encoding: the
/// decoded text is a function of the input bytes alone (malformed sequences
/// are replaced with the replacement character, deterministically). The length
/// bound keeps the call away from its one documented panic, an overflow of the
/// output buffer size calculation.
#[verifier::external_body]
fn decode_text(bytes: &[u8]) -> (r: String)
    requires
        bytes@.len() <= MAX_TEXT_LEN,
    ensures
        r@ == gbk_decode(bytes@),
{
    let (text, _, _) = encoding_rs::GBK.decode(bytes);
    text.into_owned()
}

/// The text and the position after the terminator of the null-terminated
/// string at `pos`, or `None` when the string never terminates inside the
/// buffer, starts outside it, or is longer than the format can address.
pub open spec fn spec_read_string(buf: Seq<u8>, pos: int) -> Option<(Seq<char>, int)> {
    let end = cstr_end(buf, pos);
    if 0 <= pos && end < buf.len() && end - pos <= MAX_TEXT_LEN {
        Some((gbk_decode(buf.subrange(pos, end)), end + 1))
    } else {
        None
    }
}

/// Scans forward from `pos` to the first zero byte, decodes the span before
/// it from GBK, and returns the text together with the position just after
/// the terminator. A string that never terminates inside the buffer, or a
/// start position outside it, is corruption.
pub fn read_string(buf: &[u8], pos: usize) -> (r: Result<(String, usize), LookupError>)
    ensures
        match spec_read_string(buf@, pos as int) {
            Some((text, next)) => r matches Ok(p) && p.0@ == text && p.1 == next,
            None => r matches Err(e) && e == LookupError::CorruptData,
        },
{
    proof {
        if pos <= buf@.len() {
            lemma_cstr_end(buf@, pos as int);
        }
    }
    let len = buf.len();
    if pos >= len {
        return Err(LookupError::CorruptData);
    }
    let mut end = pos;
    while end < len && buf[end] != 0
        invariant
            pos <= end <= len == buf@.len(),
            cstr_end(buf@, pos as int) == cstr_end(buf@, end as int),
        decreases len - end,
    {
        end = end + 1;
    }
    if end == len {
        return Err(LookupError::CorruptData);
    }
    assert(cstr_end(buf@, pos as int) == end);
    if end - pos > MAX_TEXT_LEN {
        return Err(LookupError::CorruptData);
    }
    let segment = slice_subrange(buf, pos, end);
    let text = decode_text(segment);
    Ok((text, end + 1))
}

} // verus!

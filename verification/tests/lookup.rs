//! End-to-end and component tests on small synthetic database buffers.

use qqwry::db::Qqwry;
use qqwry::error::LookupError;
use qqwry::ip::ip_to_u32;
use qqwry::reader::{read_string, read_u24, read_u32};

/// A database with one index record covering 10.0.0.0-10.0.0.255 whose body
/// holds the inline location "Test Country" and an empty info field.
fn one_range_db() -> Qqwry {
    let mut buf = Vec::new();
    buf.extend_from_slice(&8u32.to_le_bytes()); // index_start
    buf.extend_from_slice(&8u32.to_le_bytes()); // index_end: one record
    // index record at 8: start_ip 10.0.0.0, record offset 15
    buf.extend_from_slice(&0x0A000000u32.to_le_bytes());
    buf.extend_from_slice(&[15, 0, 0]);
    // record body at 15: end_ip 10.0.0.255, inline location, empty info
    buf.extend_from_slice(&0x0A0000FFu32.to_le_bytes());
    buf.extend_from_slice(b"Test Country\0");
    buf.push(0x00);
    Qqwry::new(buf).unwrap()
}

#[test]
fn ip_to_u32_values() {
    assert_eq!(ip_to_u32("1.2.3.4").unwrap(), 0x01020304);
    assert_eq!(ip_to_u32("255.255.255.255").unwrap(), 0xFFFFFFFF);
    assert_eq!(ip_to_u32("0.0.0.0").unwrap(), 0);
    assert_eq!(ip_to_u32("10.0.0.5").unwrap(), 0x0A000005);
}

#[test]
fn ip_to_u32_preserves_order() {
    let a = ip_to_u32("1.0.0.0").unwrap();
    let b = ip_to_u32("1.0.0.1").unwrap();
    let c = ip_to_u32("2.0.0.0").unwrap();
    assert!(a < b && b < c);
}

#[test]
fn ip_to_u32_malformed() {
    for bad in ["1.2.3", "1.2.3.4.5", "1.2.3.256", "a.b.c.d", "", "1..2.3", "01.2.3.4", "999.1.1.1"]
    {
        assert_eq!(ip_to_u32(bad).unwrap_err(), LookupError::InvalidAddress);
    }
}

#[test]
fn read_u32_le() {
    assert_eq!(read_u32(&[0x78, 0x56, 0x34, 0x12], 0), 0x12345678);
    assert_eq!(read_u32(&[0, 0xFF, 0xFF, 0xFF, 0xFF], 1), 0xFFFFFFFF);
}

#[test]
fn read_u24_le() {
    assert_eq!(read_u24(&[0x78, 0x56, 0x34], 0), 0x345678);
    assert_eq!(read_u24(&[0, 1, 0, 0], 1), 1);
}

#[test]
fn read_string_terminated() {
    let (text, next) = read_string(b"Hi\0after", 0).unwrap();
    assert_eq!(text, "Hi");
    assert_eq!(next, 3);
}

#[test]
fn read_string_unterminated_is_corrupt() {
    assert_eq!(read_string(b"Hi", 0).unwrap_err(), LookupError::CorruptData);
    assert_eq!(read_string(b"Hi\0", 9).unwrap_err(), LookupError::CorruptData);
}

#[test]
fn read_string_transcodes_gbk() {
    // 0xD6D0 0xB9FA is the GBK encoding of U+4E2D U+56FD.
    let (text, next) = read_string(&[0xD6, 0xD0, 0xB9, 0xFA, 0], 0).unwrap();
    assert_eq!(text, "\u{4e2d}\u{56fd}");
    assert_eq!(next, 5);
}

/// Index search over record starts [0, 100, 200] with ranges [0-99],
/// [100-199], [200-255].
#[test]
fn search_three_ranges() {
    let mut buf = Vec::new();
    buf.extend_from_slice(&8u32.to_le_bytes());
    buf.extend_from_slice(&22u32.to_le_bytes()); // 3 records: (22-8)/7+1
    for (start, rec) in [(0u32, 29u8), (100, 33), (200, 37)] {
        buf.extend_from_slice(&start.to_le_bytes());
        buf.extend_from_slice(&[rec, 0, 0]);
    }
    for end in [99u32, 199, 255] {
        buf.extend_from_slice(&end.to_le_bytes());
    }
    let db = Qqwry::new(buf).unwrap();
    assert_eq!(db.search_ip(50).unwrap(), 29);
    assert_eq!(db.search_ip(100).unwrap(), 33);
    assert_eq!(db.search_ip(199).unwrap(), 33);
    assert_eq!(db.search_ip(255).unwrap(), 37);
    assert_eq!(db.search_ip(300).unwrap(), 0);
}

#[test]
fn search_one_record_table_terminates() {
    let db = one_range_db();
    assert_eq!(db.search_ip(0x0A000000).unwrap(), 15);
    assert_eq!(db.search_ip(0x0A0000FF).unwrap(), 15);
    assert_eq!(db.search_ip(0x09FFFFFF).unwrap(), 0);
    assert_eq!(db.search_ip(0x0A000100).unwrap(), 0);
}

/// A record body whose location is inline (flag is the first text byte), with
/// each of the four info-field cases behind it.
fn inline_record(info: &[u8]) -> Vec<u8> {
    let mut buf = Vec::new();
    buf.extend_from_slice(&[0, 0, 0, 0]); // range-end marker
    buf.extend_from_slice(b"ABC\0");
    buf.extend_from_slice(info);
    buf
}

#[test]
fn decode_inline_location_info_absent() {
    let db = Qqwry::new(inline_record(&[0x00])).unwrap();
    let (location, info) = db.read_location(0).unwrap();
    assert_eq!(location, "ABC");
    assert_eq!(info, "");
}

#[test]
fn decode_inline_location_info_zero_redirect() {
    let db = Qqwry::new(inline_record(&[0x01, 0, 0, 0])).unwrap();
    let (location, info) = db.read_location(0).unwrap();
    assert_eq!(location, "ABC");
    assert_eq!(info, "");
}

#[test]
fn decode_inline_location_info_redirected() {
    // info redirects to offset 16, where "ISP" lies
    let mut buf = inline_record(&[0x01, 16, 0, 0]);
    buf.extend_from_slice(&[0, 0, 0, 0]); // padding up to offset 16
    buf.extend_from_slice(b"ISP\0");
    let db = Qqwry::new(buf).unwrap();
    let (location, info) = db.read_location(0).unwrap();
    assert_eq!(location, "ABC");
    assert_eq!(info, "ISP");
}

#[test]
fn decode_inline_location_info_inline() {
    let db = Qqwry::new(inline_record(b"XY\0")).unwrap();
    let (location, info) = db.read_location(0).unwrap();
    assert_eq!(location, "ABC");
    assert_eq!(info, "XY");
}

#[test]
fn decode_full_redirect_to_nested_mixed_record() {
    let mut buf = Vec::new();
    buf.extend_from_slice(&[0, 0, 0, 0]); // range-end marker
    buf.extend_from_slice(&[0x01, 12, 0, 0]); // full redirect to 12
    buf.extend_from_slice(&[0, 0, 0, 0]); // padding up to 12
    // nested mixed record at 12: location redirected once more to 20
    buf.extend_from_slice(&[0x02, 20, 0, 0]);
    buf.extend_from_slice(b"NT\0"); // info field at 16
    buf.push(0); // padding up to 20
    buf.extend_from_slice(b"Deep\0");
    let db = Qqwry::new(buf).unwrap();
    let (location, info) = db.read_location(0).unwrap();
    assert_eq!(location, "Deep");
    assert_eq!(info, "NT");
}

#[test]
fn decode_full_redirect_to_plain_string() {
    let mut buf = Vec::new();
    buf.extend_from_slice(&[0, 0, 0, 0]);
    buf.extend_from_slice(&[0x01, 12, 0, 0]); // full redirect to 12
    buf.extend_from_slice(&[0, 0, 0, 0]); // padding up to 12
    buf.extend_from_slice(b"Loc\0"); // location at 12, info follows inline
    buf.extend_from_slice(b"INF\0");
    let db = Qqwry::new(buf).unwrap();
    let (location, info) = db.read_location(0).unwrap();
    assert_eq!(location, "Loc");
    assert_eq!(info, "INF");
}

#[test]
fn decode_mixed_record() {
    let mut buf = Vec::new();
    buf.extend_from_slice(&[0, 0, 0, 0]);
    buf.extend_from_slice(&[0x02, 16, 0, 0]); // location redirected to 16
    buf.extend_from_slice(b"INF\0"); // info field at pos + 4 = 8
    buf.extend_from_slice(&[0, 0, 0, 0]); // padding up to 16
    buf.extend_from_slice(b"Loc\0");
    let db = Qqwry::new(buf).unwrap();
    let (location, info) = db.read_location(0).unwrap();
    assert_eq!(location, "Loc");
    assert_eq!(info, "INF");
}

#[test]
fn decode_self_referential_redirect_terminates() {
    // the redirect at 4 points back at itself; the decoder follows a bounded
    // number of levels and ends with whatever text the bytes spell
    let mut buf = Vec::new();
    buf.extend_from_slice(&[0, 0, 0, 0]);
    buf.extend_from_slice(&[0x01, 4, 0, 0]); // redirect to offset 4: itself
    let (location, info) = Qqwry::new(buf).unwrap().read_location(0).unwrap();
    // the flag at 4 is 0x01, not 0x02, so the bytes there are read as an
    // inline string, terminated by the high zero byte of the offset itself
    assert_eq!(location, "\u{1}\u{4}");
    assert_eq!(info, "");
}

#[test]
fn decode_redirect_outside_buffer_is_corrupt() {
    let mut buf = Vec::new();
    buf.extend_from_slice(&[0, 0, 0, 0]);
    buf.extend_from_slice(&[0x01, 0xFF, 0xFF, 0xFF]);
    let db = Qqwry::new(buf).unwrap();
    assert_eq!(db.read_location(0).unwrap_err(), LookupError::CorruptData);
}

#[test]
fn decode_unterminated_location_is_corrupt() {
    let db = Qqwry::new(vec![0, 0, 0, 0, b'A', b'B', b'C', b'D']).unwrap();
    assert_eq!(db.read_location(0).unwrap_err(), LookupError::CorruptData);
}

#[test]
fn lookup_end_to_end() {
    let db = one_range_db();
    let (location, info) = db.lookup("10.0.0.5").unwrap();
    assert_eq!(location, "Test Country");
    assert_eq!(info, "");
}

#[test]
fn lookup_is_stable_across_calls() {
    let db = one_range_db();
    let first = db.lookup("10.0.0.5").unwrap();
    let second = db.lookup("10.0.0.5").unwrap();
    assert_eq!(first, second);
}

#[test]
fn lookup_same_range_same_result() {
    let db = one_range_db();
    assert_eq!(db.lookup("10.0.0.1").unwrap(), db.lookup("10.0.0.200").unwrap());
}

#[test]
fn lookup_invalid_address() {
    let db = one_range_db();
    assert_eq!(db.lookup("999.1.1.1").unwrap_err(), LookupError::InvalidAddress);
    assert_eq!(db.lookup("not an ip").unwrap_err(), LookupError::InvalidAddress);
}

#[test]
fn lookup_uncovered_address_not_found() {
    let db = one_range_db();
    assert_eq!(db.lookup("8.8.8.8").unwrap_err(), LookupError::NotFound);
}

#[test]
fn lookup_inverted_table_not_found() {
    // index_end before index_start: no records, nothing is found
    let mut buf = Vec::new();
    buf.extend_from_slice(&16u32.to_le_bytes());
    buf.extend_from_slice(&8u32.to_le_bytes());
    buf.extend_from_slice(&[0; 24]);
    let db = Qqwry::new(buf).unwrap();
    assert_eq!(db.lookup("1.2.3.4").unwrap_err(), LookupError::NotFound);
}

#[test]
fn lookup_record_offset_outside_buffer_is_corrupt() {
    let mut buf = Vec::new();
    buf.extend_from_slice(&8u32.to_le_bytes());
    buf.extend_from_slice(&8u32.to_le_bytes());
    buf.extend_from_slice(&0u32.to_le_bytes());
    buf.extend_from_slice(&[0xFF, 0xFF, 0xFF]); // record offset far outside
    let db = Qqwry::new(buf).unwrap();
    assert_eq!(db.lookup("1.2.3.4").unwrap_err(), LookupError::CorruptData);
}

#[test]
fn region_field_cases() {
    // offset 8: empty flag; 9: redirect with zero offset; 13: redirect to 20;
    // 17: inline text; 20: the shared string
    let mut buf = vec![0u8; 8];
    buf.push(0x00);
    buf.extend_from_slice(&[0x02, 0, 0, 0]);
    buf.extend_from_slice(&[0x02, 20, 0, 0]);
    buf.extend_from_slice(b"in\0");
    buf.extend_from_slice(b"shared\0");
    let db = Qqwry::new(buf).unwrap();
    assert_eq!(db.read_region(8).unwrap(), (String::new(), 9));
    assert_eq!(db.read_region(9).unwrap(), (String::new(), 13));
    assert_eq!(db.read_region(13).unwrap(), ("shared".to_string(), 27));
    assert_eq!(db.read_region(17).unwrap(), ("in".to_string(), 20));
    assert_eq!(db.read_region(99).unwrap_err(), LookupError::CorruptData);
}

#[test]
fn search_index_outside_buffer_is_corrupt() {
    let mut buf = Vec::new();
    buf.extend_from_slice(&100u32.to_le_bytes());
    buf.extend_from_slice(&100u32.to_le_bytes());
    let db = Qqwry::new(buf).unwrap();
    assert_eq!(db.search_ip(1).unwrap_err(), LookupError::CorruptData);
}

#[test]
fn new_rejects_short_buffer() {
    assert_eq!(Qqwry::new(vec![1, 2, 3]).unwrap_err(), LookupError::CorruptData);
}

#[test]
fn error_messages() {
    assert_eq!(LookupError::InvalidAddress.message(), "invalid IPv4 address");
    assert_eq!(LookupError::NotFound.message(), "address not found");
    assert_eq!(LookupError::CorruptData.message(), "corrupt database");
}

//! Reader for a legacy flat-file IPv4 geolocation database.
//!
//! The database is a single byte buffer: an 8-byte header gives the bounds of
//! a sorted index table of 7-byte records, each mapping the start of an IPv4
//! range to the offset of a record body. A record body holds the range's end
//! address, then a flag-tagged variant that yields a location string and an
//! info string, possibly through one or two levels of redirection. Strings are
//! null-terminated GBK text, transcoded to Unicode on read.
//!
//! Every buffer access is bounds-checked: a malformed or adversarial file
//! yields a `LookupError::CorruptData` error, never a panic or an
//! out-of-bounds read.

pub mod db;
pub mod error;
pub mod ip;
pub mod laws;
pub mod reader;
pub mod record;
pub mod search;

pub use db::Qqwry;
pub use error::LookupError;

//! The trusted boundary: the few calls whose behaviour Verus believes
//! without proof. Everything else in the crate is verified against these
//! contracts and against vstd's specifications.

use vstd::prelude::*;
use vstd::utf8::{decode_utf8, valid_utf8};

verus! {

/// The IMF-fixdate text of a timestamp given as seconds since the Unix epoch.
/// Named, not spelled out: the calendar arithmetic behind it would take pages.
pub uninterp spec fn http_date_of(secs: u64) -> Seq<char>;

/// The shortest decimal text that reads back as the IEEE-754 double with
/// this bit pattern, as Rust's formatter prints it.
pub uninterp spec fn double_text(bits: u64) -> Seq<u8>;

/// The bit pattern of the IEEE-754 double equal in value to the IEEE-754
/// single-precision float with this bit pattern (the widening is exact).
pub uninterp spec fn wide_bits(single: u32) -> u64;

/// Relies on std's SystemTime::now and duration_since: the wall-clock time,
/// in whole seconds since the Unix epoch; 0 for a clock before the epoch.
/// Nothing can be promised of a clock reading.
#[verifier::external_body]
pub(crate) fn now_epoch() -> u64 {
    match std::time::SystemTime::now().duration_since(std::time::UNIX_EPOCH) {
        Ok(d) => d.as_secs(),
        Err(_) => 0,
    }
}

/// Relies on httpdate::fmt_http_date: the IMF-fixdate text of the given
/// moment. It panics from the year 9999 on, so such inputs are excluded.
#[verifier::external_body]
pub(crate) fn http_date_string(secs: u64) -> (r: String)
    requires
        secs < 253402300800,
    ensures
        r@ == http_date_of(secs),
{
    httpdate::fmt_http_date(std::time::UNIX_EPOCH + std::time::Duration::from_secs(secs))
}

/// Relies on byteorder's read_f64 (bit-for-bit reconstruction of the double)
/// and std's Display for floating-point numbers, which prints the shortest
/// decimal text that reads back to the same value.
#[verifier::external_body]
pub(crate) fn double_json(bits: u64) -> (r: Vec<u8>)
    ensures
        r@ == double_text(bits),
{
    let buf = bits.to_be_bytes();
    let v = <byteorder::BigEndian as byteorder::ByteOrder>::read_f64(&buf);
    format!("{}", v).into_bytes()
}

/// Relies on byteorder's read_f32 and write_f64: widens a single-precision
/// float to the double of equal value and hands back its bit pattern.
#[verifier::external_body]
pub(crate) fn widen_single(single: u32) -> (r: u64)
    ensures
        r == wide_bits(single),
{
    let buf = single.to_be_bytes();
    let v = <byteorder::BigEndian as byteorder::ByteOrder>::read_f32(&buf);
    let mut out = [0u8; 8];
    <byteorder::BigEndian as byteorder::ByteOrder>::write_f64(&mut out, v.into());
    u64::from_be_bytes(out)
}

/// Relies on std's String::from_utf8: succeeds exactly on valid UTF-8, and
/// the characters of the result are the decoding of the bytes.
#[verifier::external_body]
pub(crate) fn utf8_string(b: Vec<u8>) -> (r: Option<String>)
    ensures
        valid_utf8(b@) <==> r is Some,
        r matches Some(s) ==> s@ == decode_utf8(b@),
{
    String::from_utf8(b).ok()
}

} // verus!

//! The boundary to outside crates the pipeline computes through.
//!
//! Each function here wraps exactly one outside call.  Where the call's
//! result would take pages to state, it is given a name instead (an
//! uninterpreted function of the arguments), and the verified callers speak
//! of that name.

use vstd::prelude::*;

verus! {

/// The SHA-256 digest of a byte string.
pub uninterp spec fn sha256_of(data: Seq<u8>) -> Seq<u8>;

/// Relies on sha2::Sha256::digest: the SHA-256 digest, 32 bytes, a function
/// of the input bytes alone.
#[verifier::external_body]
pub(crate) fn sha256(data: &[u8]) -> (r: Vec<u8>)
    ensures
        r@ == sha256_of(data@),
        r@.len() == 32,
{
    <sha2::Sha256 as sha2::Digest>::digest(data).to_vec()
}

/// Relies on hex::encode: lowercase hexadecimal, exactly two digits per
/// input byte.
#[verifier::external_body]
pub(crate) fn hex_encode(data: &[u8]) -> (r: String)
    ensures
        r@ == crate::utils::hex_chars(data@),
{
    hex::encode(data)
}

/// The percent-encoded form of a text.
pub uninterp spec fn urlenc_of(s: Seq<char>) -> Seq<char>;

/// Relies on urlencoding::encode: percent-encodes every byte except
/// alphanumerics and `-`, `_`, `.`, `~`; a function of the text alone.
#[verifier::external_body]
pub(crate) fn url_encode(s: &str) -> (r: String)
    ensures
        r@ == urlenc_of(s@),
{
    urlencoding::encode(s).into_owned()
}

/// The `%Y-%m-%d %H:%M:%S` rendering of a UTC timestamp, where the timestamp
/// is within chrono's range.
pub uninterp spec fn datetime_text_of(ts: i64) -> Option<Seq<char>>;

/// Relies on chrono's `DateTime::<Utc>::from_timestamp` and its strftime
/// formatting: a function of the timestamp alone, defined for timestamps
/// within about 262,000 years of the common era — in particular for every
/// non-negative timestamp up to the year 9999.
#[verifier::external_body]
pub(crate) fn format_timestamp(ts: i64) -> (r: Option<String>)
    ensures
        match r {
            Some(s) => datetime_text_of(ts) == Some(s@),
            None => datetime_text_of(ts) is None,
        },
        0 <= ts <= 253402300799 ==> r is Some,
{
    match chrono::DateTime::<chrono::Utc>::from_timestamp(ts, 0) {
        Some(t) => Some(t.naive_utc().format("%Y-%m-%d %H:%M:%S").to_string()),
        None => None,
    }
}

/// Whether a text is well-formed address syntax.
pub uninterp spec fn email_ok(s: Seq<char>) -> bool;

/// Relies on email_address::EmailAddress::is_valid: well-formed address
/// syntax, a function of the text alone.
pub assume_specification[ email_address::EmailAddress::is_valid ](address: &str) -> (r: bool)
    ensures
        r == email_ok(address@),
;

} // verus!

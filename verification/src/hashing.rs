//! Trusted wrappers around the digest crates and the clock.
//!
//! The two digests are named, not described: `sha256_hex` and `md5_hex`
//! stand for whatever the respective algorithms compute, as functions of the
//! input alone. Every contract in this crate speaks of the digests through
//! these names.

use vstd::prelude::*;
use sha2::Digest;

verus! {

/// The SHA-256 digest of a string, rendered as lowercase hexadecimal; a
/// function of the input characters alone.
pub uninterp spec fn sha256_hex(s: Seq<char>) -> Seq<char>;

/// The MD5 digest of a string, rendered as lowercase hexadecimal; a
/// function of the input characters alone.
pub uninterp spec fn md5_hex(s: Seq<char>) -> Seq<char>;

/// The sixteen characters a lowercase hexadecimal rendering consists of.
pub open spec fn is_lower_hex_digit(c: char) -> bool {
    c == '0' || c == '1' || c == '2' || c == '3' || c == '4' || c == '5' || c == '6' || c == '7'
        || c == '8' || c == '9' || c == 'a' || c == 'b' || c == 'c' || c == 'd' || c == 'e'
        || c == 'f'
}

/// Relies on sha2::Sha256 (update, finalize) and on generic-array's
/// LowerHex rendering of the 32-byte digest: two lowercase hex characters
/// per byte, so 64 characters in all, drawn from `0-9a-f`, a pure function
/// of the input bytes.
#[verifier::external_body]
pub(crate) fn sha256_hex_of(s: &str) -> (r: String)
    ensures
        r@ == sha256_hex(s@),
        r@.len() == 64,
        forall|i: int| 0 <= i < r@.len() ==> is_lower_hex_digit(#[trigger] r@[i]),
{
    let mut hasher = sha2::Sha256::new();
    hasher.update(s.as_bytes());
    format!("{:x}", hasher.finalize())
}

/// Relies on md5::compute and on Digest's LowerHex rendering of the 16-byte
/// digest: two lowercase hex characters per byte, so 32 characters in all,
/// drawn from `0-9a-f`, a pure function of the input bytes.
#[verifier::external_body]
pub(crate) fn md5_hex_of(s: &str) -> (r: String)
    ensures
        r@ == md5_hex(s@),
        r@.len() == 32,
        forall|i: int| 0 <= i < r@.len() ==> is_lower_hex_digit(#[trigger] r@[i]),
{
    format!("{:x}", md5::compute(s.as_bytes()))
}

/// Relies on std::time::SystemTime::now and duration_since: the clock's
/// reading in whole seconds since the Unix epoch, or zero when the clock
/// reads before the epoch. No panic on any clock reading; nothing is
/// promised of the value.
#[verifier::external_body]
pub(crate) fn now_epoch_seconds() -> (t: u64)
{
    match std::time::SystemTime::now().duration_since(std::time::UNIX_EPOCH) {
        Ok(d) => d.as_secs(),
        Err(_) => 0,
    }
}

} // verus!

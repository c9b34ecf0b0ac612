//! Trusted boundaries to outside libraries used by single instructions:
//! hashing, the clock, randomness, regular expressions, and string
//! splitting.

use vstd::prelude::*;
use sha2::{Digest, Sha256};
use rand::Rng;
use chrono::Utc;

verus! {

/// The lowercase-hex SHA-256 digest of a string's UTF-8 bytes.
pub uninterp spec fn sha256_hex_of(s: Seq<char>) -> Seq<char>;

/// Relies on sha2's SHA-256 digest, rendered as lowercase hex: the digest
/// depends on the input bytes alone.
#[verifier::external_body]
pub fn sha256_hex(s: &str) -> (r: String)
    ensures
        r@ == sha256_hex_of(s@),
{
    let mut hasher = Sha256::new();
    hasher.update(s.as_bytes());
    let digest = hasher.finalize();
    let mut out = String::new();
    for byte in digest {
        out.push_str(&format!("{:02x}", byte));
    }
    out
}

/// Relies on chrono's `Utc::now`: the current datetime in RFC 3339 form.
/// The result depends on the clock; nothing is promised of it.
#[verifier::external_body]
pub fn now_rfc3339() -> (r: String) {
    Utc::now().to_rfc3339()
}

/// Relies on rand's thread-local generator: a fresh random 64-bit value.
/// Nothing is promised of it.
#[verifier::external_body]
pub fn random_u64() -> (r: u64) {
    rand::thread_rng().gen::<u64>()
}

/// Whether a pattern is a valid regular expression.
pub uninterp spec fn regex_valid(pattern: Seq<char>) -> bool;

/// Whether the text matches the (valid) pattern.
pub uninterp spec fn regex_matches(pattern: Seq<char>, text: Seq<char>) -> bool;

/// Relies on the regex crate: `Regex::new` accepts exactly the valid
/// patterns, and `is_match` reports whether the text matches; both depend
/// on their string arguments alone.
#[verifier::external_body]
pub fn regex_is_match(pattern: &str, text: &str) -> (r: Option<bool>)
    ensures
        r matches Some(b) ==> regex_valid(pattern@) && b == regex_matches(pattern@, text@),
        r is None ==> !regex_valid(pattern@),
{
    match regex::Regex::new(pattern) {
        Ok(re) => Some(re.is_match(text)),
        Err(_) => None,
    }
}

/// The pieces of `s` between occurrences of `delim`, in order.
pub uninterp spec fn split_parts(s: Seq<char>, delim: Seq<char>) -> Seq<Seq<char>>;

/// Relies on `str::split` from std: the pieces of `s` between occurrences
/// of `delim`, in order; they depend on the two strings alone.
#[verifier::external_body]
pub fn split_string(s: &str, delim: &str) -> (r: Vec<String>)
    ensures
        r.deep_view() == split_parts(s@, delim@),
{
    s.split(delim).map(|p| p.to_string()).collect()
}

} // verus!

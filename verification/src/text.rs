//! Conversions between byte buffers, character buffers and strings.
//!
//! Verus views both `str` and `String` as sequences of characters; these
//! wrappers move between those and `Vec<char>`, which the verified parsers
//! index directly.

use vstd::prelude::*;

verus! {

/// What lossy UTF-8 decoding yields on a byte sequence: the text with every
/// invalid sequence replaced by the replacement character.
pub uninterp spec fn lossy_decode(bytes: Seq<u8>) -> Seq<char>;

/// Relies on `String::from_utf8_lossy`: the decoded text is a function of
/// the bytes alone, and an empty input decodes to empty text.
#[verifier::external_body]
pub fn lossy_chars(data: &[u8]) -> (r: Vec<char>)
    ensures
        r@ == lossy_decode(data@),
        data@.len() == 0 ==> r@.len() == 0,
{
    String::from_utf8_lossy(data).chars().collect()
}

/// Relies on `str::chars`: the characters of the string in order.
#[verifier::external_body]
pub fn str_chars(s: &str) -> (r: Vec<char>)
    ensures
        r@ == s@,
{
    s.chars().collect()
}

/// Relies on `String: FromIterator<char>`: the same characters in order.
#[verifier::external_body]
pub fn chars_to_string(v: &Vec<char>) -> (r: String)
    ensures
        r@ == v@,
{
    v.iter().collect()
}

/// Relies on `str`'s `PartialEq`: two string slices are equal exactly when
/// their characters are.
#[verifier::external_body]
pub fn str_eq(a: &str, b: &str) -> (r: bool)
    ensures
        r == (a@ == b@),
{
    a == b
}

} // verus!

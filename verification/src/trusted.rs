use vstd::prelude::*;

verus! {

/// Whether a character sequence is the PKCS#1 PEM text of an RSA private
/// key. The answer is a function of the characters alone; only the `rsa`
/// crate can compute it, so it stays uninterpreted here and every caller
/// reaches it through `pem_private_key_ok`.
pub uninterp spec fn pem_key_ok(s: Seq<char>) -> bool;

/// Relies on `rsa::RsaPrivateKey::from_pkcs1_pem`: parsing succeeds or
/// fails deterministically, depending on the text alone.
#[verifier::external_body]
pub fn pem_private_key_ok(s: &str) -> (r: bool)
    ensures
        r == pem_key_ok(s@),
{
    <rsa::RsaPrivateKey as rsa::pkcs1::DecodeRsaPrivateKey>::from_pkcs1_pem(s).is_ok()
}

/// Whether a character sequence is a well-formed RFC 3339 timestamp. The
/// answer is a function of the characters alone; only `chrono` can
/// compute it, so it stays uninterpreted here and every caller reaches it
/// through `rfc3339_parses`.
pub uninterp spec fn rfc3339_ok(s: Seq<char>) -> bool;

/// Relies on `chrono::DateTime::parse_from_rfc3339`: parsing succeeds or
/// fails deterministically, depending on the text alone.
#[verifier::external_body]
pub fn rfc3339_parses(s: &str) -> (r: bool)
    ensures
        r == rfc3339_ok(s@),
{
    chrono::DateTime::parse_from_rfc3339(s).is_ok()
}

/// Relies on `String`'s `FromIterator<char>` impl: collecting characters
/// builds the string of exactly those characters, in order.
#[verifier::external_body]
pub fn chars_to_string(v: &Vec<char>) -> (r: String)
    ensures
        r@ == v@,
{
    v.iter().collect()
}

/// Relies on `String::into_bytes`: it returns the UTF-8 encoding of the
/// string's characters.
#[verifier::external_body]
pub fn string_into_bytes(s: String) -> (r: Vec<u8>)
    ensures
        vstd::utf8::valid_utf8(r@),
        vstd::utf8::decode_utf8(r@) == s@,
{
    s.into_bytes()
}

/// Relies on `String::from_utf8`: it succeeds exactly on valid UTF-8 and
/// decodes it to the characters it encodes.
#[verifier::external_body]
pub fn bytes_to_string(v: &Vec<u8>) -> (r: Option<String>)
    ensures
        r matches Some(s) ==> vstd::utf8::valid_utf8(v@) && s@ == vstd::utf8::decode_utf8(v@),
        r is None ==> !vstd::utf8::valid_utf8(v@),
{
    String::from_utf8(v.clone()).ok()
}

} // verus!

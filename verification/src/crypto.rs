//! Trusted boundary to the cryptographic and encoding crates: SHA-256,
//! HMAC-SHA-256, hex, and the two base64 alphabets the wire uses.  Each
//! item carries the contract the outside crate's source shows; digests
//! get names rather than written-out algorithms.
use vstd::prelude::*;

use sha2::Digest;

verus! {

/// The SHA-256 digest of a byte sequence; a function of the bytes alone.
pub uninterp spec fn sha256_of(data: Seq<u8>) -> Seq<u8>;

/// The HMAC-SHA-256 tag over `data` under `key`; a function of both alone.
pub uninterp spec fn hmac_of(key: Seq<u8>, data: Seq<u8>) -> Seq<u8>;

/// The standard (padded) base64 rendering of a byte sequence.
pub uninterp spec fn base64_of(data: Seq<u8>) -> Seq<char>;

/// What standard base64 decoding yields on a string: the bytes, or
/// nothing when the string is not valid base64.
pub uninterp spec fn base64_decode_of(text: Seq<char>) -> Option<Seq<u8>>;

/// The URL-safe, unpadded base64 rendering of a byte sequence.
pub uninterp spec fn base64_url_of(data: Seq<u8>) -> Seq<char>;

/// Relies on `sha2::Sha256::digest`: a 32-byte digest computed from the
/// input bytes alone.
#[verifier::external_body]
pub fn sha256(data: &[u8]) -> (r: Vec<u8>)
    ensures
        r@ == sha256_of(data@),
        r@.len() == 32,
{
    sha2::Sha256::digest(data).to_vec()
}

/// Relies on `hmac_sha256::HMAC::mac`: a 32-byte MAC computed from the
/// input and the key alone.
#[verifier::external_body]
pub fn hmac_mac(data: &[u8], key: &[u8]) -> (r: Vec<u8>)
    ensures
        r@ == hmac_of(key@, data@),
        r@.len() == 32,
{
    hmac_sha256::HMAC::mac(data, key).to_vec()
}

/// The lowercase hex digit for a value below 16.
pub open spec fn spec_hex_digit(v: u8) -> char {
    if v < 10 {
        (0x30 + v) as char
    } else {
        (0x57 + v) as char
    }
}

/// The lowercase hex rendering of a byte sequence: two digits per byte,
/// high nibble first.
pub open spec fn spec_hex(data: Seq<u8>) -> Seq<char> {
    Seq::new(
        data.len() * 2,
        |i: int|
            if i % 2 == 0 {
                spec_hex_digit(data[i / 2] / 16)
            } else {
                spec_hex_digit(data[i / 2] % 16)
            },
    )
}

/// Relies on `hex::encode`: each input byte becomes exactly two
/// lowercase hex digits, high nibble first.
#[verifier::external_body]
pub fn hex_encode(data: &[u8]) -> (r: String)
    ensures
        r@ == spec_hex(data@),
{
    hex::encode(data)
}

/// The value of one hex digit character, if it is one (either case).
pub open spec fn spec_hex_val(c: char) -> Option<u8> {
    if '0' <= c <= '9' {
        Some((c as u8 - 0x30) as u8)
    } else if 'a' <= c <= 'f' {
        Some((c as u8 - 0x57) as u8)
    } else if 'A' <= c <= 'F' {
        Some((c as u8 - 0x37) as u8)
    } else {
        None
    }
}

/// Whether a string is a well-formed hex rendering: even length, hex
/// digits throughout.
pub open spec fn spec_hex_text_ok(text: Seq<char>) -> bool {
    &&& text.len() % 2 == 0
    &&& forall|i: int| 0 <= i < text.len() ==> #[trigger] spec_hex_val(text[i]) is Some
}

/// The bytes a well-formed hex string denotes.
pub open spec fn spec_hex_decode(text: Seq<char>) -> Seq<u8> {
    Seq::new(
        (text.len() / 2) as nat,
        |i: int| (spec_hex_val(text[2 * i])->0 * 16 + spec_hex_val(text[2 * i + 1])->0) as u8,
    )
}

/// Relies on `hex::decode`: succeeds exactly on even-length all-hex
/// input (either case) and yields the denoted bytes.
#[verifier::external_body]
pub fn hex_decode(text: &str) -> (r: Option<Vec<u8>>)
    ensures
        r is Some <==> spec_hex_text_ok(text@),
        r is Some ==> r->0@ == spec_hex_decode(text@),
{
    hex::decode(text).ok()
}

/// Relies on `base64::encode`: the standard-alphabet, padded rendering,
/// computed from the bytes alone; `base64::decode` inverts it.
#[verifier::external_body]
pub fn base64_encode(data: &[u8]) -> (r: String)
    ensures
        r@ == base64_of(data@),
        base64_decode_of(r@) == Some(data@),
        vstd::utf8::is_ascii_chars(r@),
{
    base64::encode(data)
}

/// Relies on `base64::decode`: a function of the text alone; succeeds
/// exactly on well-formed standard base64.
#[verifier::external_body]
pub fn base64_decode(text: &str) -> (r: Option<Vec<u8>>)
    ensures
        r is Some <==> base64_decode_of(text@) is Some,
        r is Some ==> Some(r->0@) == base64_decode_of(text@),
{
    base64::decode(text).ok()
}

/// Relies on `base64::encode_config` with `URL_SAFE_NO_PAD`: the
/// URL-safe unpadded rendering, computed from the bytes alone.
#[verifier::external_body]
pub fn base64_url_encode(data: &[u8]) -> (r: String)
    ensures
        r@ == base64_url_of(data@),
        vstd::utf8::is_ascii_chars(r@),
{
    base64::encode_config(data, base64::URL_SAFE_NO_PAD)
}

} // verus!

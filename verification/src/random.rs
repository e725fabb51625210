//! Trusted boundary to the process randomness: identifier material for
//! streams, clients, keys and capture records.  Nothing is promised of a
//! drawn value beyond its shape; callers treat every outcome alike.
use vstd::prelude::*;

use rand::Rng;

verus! {

/// Whether a byte is an ASCII alphanumeric character.
pub open spec fn spec_is_alnum(b: u8) -> bool {
    (0x30 <= b <= 0x39) || (0x41 <= b <= 0x5a) || (0x61 <= b <= 0x7a)
}

/// Relies on `rand::Rng::gen` over the thread RNG: some 64-bit value;
/// nothing further is promised of it.
#[verifier::external_body]
pub fn random_u64() -> u64 {
    rand::thread_rng().gen()
}

/// Relies on `rand::distributions::Alphanumeric`: every sample is an
/// ASCII alphanumeric byte.
#[verifier::external_body]
pub fn random_alnum_byte() -> (r: u8)
    ensures
        spec_is_alnum(r),
{
    rand::thread_rng().sample(rand::distributions::Alphanumeric)
}

/// Relies on `rand::Rng::fill` over the thread RNG: 32 bytes of
/// randomness; nothing further is promised of them.
#[verifier::external_body]
pub fn random_bytes_32() -> (r: Vec<u8>)
    ensures
        r@.len() == 32,
{
    let mut buf = [0u8; 32];
    rand::thread_rng().fill(&mut buf);
    buf.to_vec()
}

/// Relies on `uuid::Uuid::new_v4`: a fresh random identifier in its
/// canonical 36-character hyphenated text form.
#[verifier::external_body]
pub fn random_uuid_string() -> (r: String)
    ensures
        r@.len() == 36,
        vstd::utf8::is_ascii_chars(r@),
{
    uuid::Uuid::new_v4().to_string()
}

} // verus!

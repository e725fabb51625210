//! Credentials and identifiers: the client's secret key, the derived
//! client identifier, and the random material both are made of.
use crate::crypto::{base64_encode, base64_of, base64_url_encode, base64_url_of, sha256, sha256_of};
use crate::random::{random_alnum_byte, random_bytes_32, spec_is_alnum};
use crate::text::{chars_of_ascii, spec_lower_byte, string_from_ascii};
use vstd::prelude::*;

verus! {

/// Whether a byte is a lowercase ASCII letter or a digit.
pub open spec fn spec_is_lower_alnum(b: u8) -> bool {
    (0x30 <= b <= 0x39) || (0x61 <= b <= 0x7a)
}

/// Draws `len` random ASCII alphanumeric bytes.
pub fn random_alnum_bytes(len: usize) -> (r: Vec<u8>)
    ensures
        r@.len() == len,
        forall|i: int| 0 <= i < r@.len() ==> spec_is_alnum(#[trigger] r@[i]),
{
    let mut out: Vec<u8> = Vec::new();
    let mut i: usize = 0;
    while i < len
        invariant
            0 <= i <= len,
            out@.len() == i,
            forall|j: int| 0 <= j < out@.len() ==> spec_is_alnum(#[trigger] out@[j]),
        decreases len - i,
    {
        out.push(random_alnum_byte());
        i = i + 1;
    }
    out
}

/// Draws `len` random alphanumeric bytes, case-folded to lowercase.
pub fn random_alnum_bytes_lower(len: usize) -> (r: Vec<u8>)
    ensures
        r@.len() == len,
        forall|i: int| 0 <= i < r@.len() ==> spec_is_lower_alnum(#[trigger] r@[i]),
{
    let raw = random_alnum_bytes(len);
    let mut out: Vec<u8> = Vec::new();
    let mut i: usize = 0;
    while i < len
        invariant
            raw@.len() == len,
            forall|j: int| 0 <= j < raw@.len() ==> spec_is_alnum(#[trigger] raw@[j]),
            0 <= i <= len,
            out@.len() == i,
            forall|j: int| 0 <= j < out@.len() ==> spec_is_lower_alnum(#[trigger] out@[j]),
        decreases len - i,
    {
        out.push(crate::text::lower_byte(raw[i]));
        i = i + 1;
    }
    out
}

/// An opaque authentication credential: printable text, never shown on
/// any wire except inside an authenticated hello.
#[derive(Debug, Clone)]
pub struct SecretKey(pub String);

impl View for SecretKey {
    type V = Seq<char>;

    open spec fn view(&self) -> Seq<char> {
        self.0@
    }
}

/// An opaque printable identifier for one client; the registry's
/// primary key.  Equality is by text value.
#[derive(Debug)]
pub struct ClientId(String);

impl Clone for ClientId {
    /// Clones the identifier, keeping its text.
    fn clone(&self) -> (r: Self)
        ensures
            r@ == self@,
    {
        ClientId(self.0.clone())
    }
}

impl View for ClientId {
    type V = Seq<char>;

    closed spec fn view(&self) -> Seq<char> {
        self.0@
    }
}

impl PartialEq for ClientId {
    fn eq(&self, other: &ClientId) -> (r: bool) {
        self.0 == other.0
    }
}

impl vstd::std_specs::cmp::PartialEqSpecImpl for ClientId {
    open spec fn obeys_eq_spec() -> bool {
        true
    }

    open spec fn eq_spec(&self, other: &ClientId) -> bool {
        self@ == other@
    }
}

impl ClientId {
    /// Wraps printable text as a client identifier.
    pub fn from_text(text: String) -> (r: ClientId)
        ensures
            r@ == text@,
    {
        ClientId(text)
    }

    /// The identifier's text.
    pub fn to_string(&self) -> (r: String)
        ensures
            r@ == self@,
    {
        self.0.clone()
    }

    /// A fresh process-local identifier: the URL-safe base64 of 32
    /// random bytes.
    pub fn generate() -> (r: ClientId)
        ensures
            exists|b: Seq<u8>| b.len() == 32 && r@ == base64_url_of(b),
            vstd::utf8::is_ascii_chars(r@),
    {
        let bytes = random_bytes_32();
        let r = ClientId(base64_url_encode(bytes.as_slice()));
        proof {
            assert(bytes@.len() == 32 && r@ == base64_url_of(bytes@));
        }
        r
    }

    /// A non-invertible form of the identifier, safe to show: the
    /// base64 of its SHA-256 digest.
    pub fn safe_id(self) -> (r: ClientId)
        ensures
            r@ == base64_of(sha256_of(vstd::utf8::encode_utf8(self@))),
    {
        let digest = sha256(self.0.as_str().as_bytes());
        ClientId(base64_encode(digest.as_slice()))
    }
}

impl SecretKey {
    /// Draws a fresh credential: 22 random alphanumeric characters.
    pub fn generate() -> (r: SecretKey)
        ensures
            r@.len() == 22,
            forall|i: int| 0 <= i < r@.len() ==> spec_is_alnum(#[trigger] r@[i] as u8),
    {
        let bytes = random_alnum_bytes(22);
        proof {
            assert(forall|i: int|
                0 <= i < bytes@.len() ==> #[trigger] chars_of_ascii(bytes@)[i] as u8 == bytes@[i]);
        }
        SecretKey(string_from_ascii(bytes))
    }

    /// The well-known all-zero credential: the URL-safe base64 of 32
    /// zero bytes.
    pub fn anonymous_key() -> (r: SecretKey)
        ensures
            r@ == base64_url_of(Seq::new(32, |_i: int| 0u8)),
    {
        let zeros: Vec<u8> = vec![0u8; 32];
        proof {
            assert(zeros@ =~= Seq::new(32, |_i: int| 0u8));
        }
        SecretKey(base64_url_encode(zeros.as_slice()))
    }

    /// The client identifier this credential determines: the base64 of
    /// the SHA-256 digest of the key text.
    pub fn client_id(&self) -> (r: ClientId)
        ensures
            r@ == base64_of(sha256_of(vstd::utf8::encode_utf8(self@))),
    {
        let digest = sha256(self.0.as_str().as_bytes());
        ClientId(base64_encode(digest.as_slice()))
    }
}

} // verus!

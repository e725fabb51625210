//! The signing key for reconnect tokens, and the authorization
//! interface the handshake consults about subdomain ownership.
use crate::crypto::{
    hex_decode, hex_encode, hmac_mac, hmac_of, spec_hex, spec_hex_decode, spec_hex_text_ok,
};
use crate::random::random_bytes_32;
use crate::text::bytes_eq_total;
use vstd::prelude::*;
use vstd::string::StringSliceAdditionalSpecFns;

verus! {

/// The server's master signing key: 32 secret bytes for HMAC-SHA-256.
#[derive(Debug, Clone)]
pub struct SigKey {
    bytes: Vec<u8>,
}

impl View for SigKey {
    type V = Seq<u8>;

    closed spec fn view(&self) -> Seq<u8> {
        self.bytes@
    }
}

/// A detached signature: the lowercase hex text of an HMAC tag.
#[derive(Debug, Clone)]
pub struct Signature(pub String);

impl View for Signature {
    type V = Seq<char>;

    open spec fn view(&self) -> Seq<char> {
        self.0@
    }
}

impl SigKey {
    /// A signing key is exactly 32 bytes long.
    pub open spec fn wf(&self) -> bool {
        self@.len() == 32
    }

    /// Draws a fresh ephemeral signing key.
    pub fn generate() -> (r: SigKey)
        ensures
            r.wf(),
    {
        SigKey { bytes: random_bytes_32() }
    }

    /// Reads a signing key from hex text: succeeds exactly on hex that
    /// denotes 32 bytes.
    pub fn from_hex(hex: &str) -> (r: Result<SigKey, ()>)
        ensures
            r is Ok <==> (spec_hex_text_ok(hex@) && spec_hex_decode(hex@).len() == 32),
            r is Ok ==> r->Ok_0@ == spec_hex_decode(hex@) && r->Ok_0.wf(),
    {
        match hex_decode(hex) {
            Some(bytes) => {
                if bytes.len() == 32 {
                    Ok(SigKey { bytes })
                } else {
                    Err(())
                }
            },
            None => Err(()),
        }
    }

    /// Signs bytes: the lowercase hex of their HMAC tag under this key.
    pub fn sign(&self, data: &[u8]) -> (r: Signature)
        ensures
            r@ == spec_hex(hmac_of(self@, data@)),
    {
        let mac = hmac_mac(data, self.bytes.as_slice());
        Signature(hex_encode(mac.as_slice()))
    }

    /// Checks a signature over bytes: true exactly when the text is
    /// hex (either case) denoting the HMAC tag of the bytes under this
    /// key.
    pub fn verify(&self, data: &[u8], signature: &Signature) -> (r: bool)
        ensures
            r == (spec_hex_text_ok(signature@) && spec_hex_decode(signature@) == hmac_of(
                self@,
                data@,
            )),
    {
        match hex_decode(signature.0.as_str()) {
            Some(sig_bytes) => {
                let expected = hmac_mac(data, self.bytes.as_slice());
                bytes_eq_total(sig_bytes.as_slice(), expected.as_slice())
            },
            None => false,
        }
    }
}

/// What the authorization backend says about a (key, subdomain) pair.
#[derive(Debug, Clone, Copy, PartialEq, Eq, Structural)]
pub enum AuthResult {
    ReservedByYou,
    ReservedByOther,
    ReservedByYouButDelinquent,
    PaymentRequired,
    Available,
}

/// The required behavior of an authentication service: authorize a
/// subdomain for the holder of a key.  Backends outside this crate
/// implement it; the handshake takes its verdict as an input and is
/// verified for every possible answer.
pub trait AuthService {
    /// Authorizes a subdomain for the holder of the key.
    fn auth_sub_domain(&self, auth_key: &String, subdomain: &String) -> Result<AuthResult, ()>;
}

/// The no-op backend: every subdomain is available to everyone.
#[derive(Debug, Clone, Copy)]
pub struct NoAuth;

impl AuthService for NoAuth {
    /// Authorizes unconditionally.
    fn auth_sub_domain(&self, _auth_key: &String, _subdomain: &String) -> (r: Result<
        AuthResult,
        (),
    >)
        ensures
            r == Result::<AuthResult, ()>::Ok(AuthResult::Available),
    {
        Ok(AuthResult::Available)
    }
}

} // verus!

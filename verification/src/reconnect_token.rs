//! Reconnect tokens: a short-lived, HMAC-signed capability that lets a
//! disconnected client re-claim its subdomain.  The token text is the
//! base64 of a signed envelope: a length-framed payload (subdomain,
//! client id, expiry) followed by the hex HMAC tag of that payload.
//! Verification is specified exactly and proved to invert signing.
use crate::auth::SigKey;
use crate::codec::{
    copy_range, push_u64_bytes, read_u64_be, spec_bytes_u64, spec_u64_bytes, ReconnectToken,
};
use crate::crypto::{base64_decode, base64_decode_of, base64_encode, base64_of, hmac_of, spec_hex};
use crate::ids::ClientId;
use crate::text::{bytes_eq_total, push_bytes, string_from_utf8};
use vstd::prelude::*;
use vstd::string::StringSliceAdditionalSpecFns;
use vstd::utf8::{decode_utf8, encode_utf8, valid_utf8};

verus! {

/// Why a presented token was rejected.
#[derive(Debug, Clone, Copy, PartialEq, Eq, Structural)]
pub enum Error {
    /// The text is not a well-formed signed envelope.
    Malformed,
    /// The envelope's tag is not the HMAC of its payload.
    InvalidSignature,
    /// The payload's expiry is not in the future.
    Expired,
}

/// What a reconnect token binds: the subdomain to re-claim, the client
/// identity, and a Unix-seconds expiry.
#[derive(Debug, Clone)]
pub struct ReconnectTokenPayload {
    pub sub_domain: String,
    pub client_id: ClientId,
    pub expires: i64,
}

/// The mathematical shape of a token payload.
pub struct PayloadModel {
    pub sub_domain: Seq<char>,
    pub client_id: Seq<char>,
    pub expires: i64,
}

impl View for ReconnectTokenPayload {
    type V = PayloadModel;

    open spec fn view(&self) -> PayloadModel {
        PayloadModel {
            sub_domain: self.sub_domain@,
            client_id: self.client_id@,
            expires: self.expires,
        }
    }
}

/// The length-framed payload bytes: each text field preceded by its
/// byte length, then the expiry, all lengths and the expiry as eight
/// big-endian bytes.
pub open spec fn spec_payload_bytes(sub: Seq<char>, id: Seq<char>, expires: i64) -> Seq<u8> {
    spec_u64_bytes(encode_utf8(sub).len() as u64) + encode_utf8(sub) + spec_u64_bytes(
        encode_utf8(id).len() as u64,
    ) + encode_utf8(id) + spec_u64_bytes(expires as u64)
}

/// The signed envelope: the payload bytes followed by the 64 hex
/// characters of their HMAC tag under the key.
pub open spec fn spec_envelope(sub: Seq<char>, id: Seq<char>, expires: i64, key: Seq<u8>) -> Seq<
    u8,
> {
    spec_payload_bytes(sub, id, expires) + encode_utf8(
        spec_hex(hmac_of(key, spec_payload_bytes(sub, id, expires))),
    )
}

/// What verifying a token text yields, for any text at all: the payload
/// when the text is a fresh, well-signed envelope, and the exact error
/// otherwise.
pub open spec fn spec_verify(tok: Seq<char>, key: Seq<u8>, now: i64) -> Result<
    PayloadModel,
    Error,
> {
    if base64_decode_of(tok) is None {
        Err(Error::Malformed)
    } else {
        let env = base64_decode_of(tok)->0;
        let l = env.len() as int;
        if l < 88 {
            Err(Error::Malformed)
        } else {
            let pl = l - 64;
            let len1 = spec_bytes_u64(env.subrange(0, 8)) as int;
            if len1 > pl - 24 {
                Err(Error::Malformed)
            } else {
                let len2 = spec_bytes_u64(env.subrange(8 + len1, 16 + len1)) as int;
                if len1 + len2 != pl - 24 {
                    Err(Error::Malformed)
                } else {
                    let subb = env.subrange(8, 8 + len1);
                    let idb = env.subrange(16 + len1, 16 + len1 + len2);
                    let expires = spec_bytes_u64(env.subrange(16 + len1 + len2, pl)) as i64;
                    let payload = env.take(pl);
                    let sigb = env.skip(pl);
                    if sigb != encode_utf8(spec_hex(hmac_of(key, payload))) {
                        Err(Error::InvalidSignature)
                    } else if !valid_utf8(subb) || !valid_utf8(idb) {
                        Err(Error::Malformed)
                    } else if expires <= now {
                        Err(Error::Expired)
                    } else {
                        Ok(
                            PayloadModel {
                                sub_domain: decode_utf8(subb),
                                client_id: decode_utf8(idb),
                                expires,
                            },
                        )
                    }
                }
            }
        }
    }
}

impl ReconnectTokenPayload {
    /// Signs the payload into a token: the base64 of the signed
    /// envelope under the key.
    pub fn into_token(&self, key: &SigKey) -> (r: Result<ReconnectToken, Error>)
        ensures
            r is Ok,
            r->Ok_0@ == base64_of(
                spec_envelope(self@.sub_domain, self@.client_id, self.expires, key@),
            ),
            base64_decode_of(r->Ok_0@) == Some(
                spec_envelope(self@.sub_domain, self@.client_id, self.expires, key@),
            ),
    {
        let ghost sub = self@.sub_domain;
        let ghost id = self@.client_id;
        let mut payload: Vec<u8> = Vec::new();
        let sub_bytes: &[u8] = self.sub_domain.as_str().as_bytes();
        push_u64_bytes(sub_bytes.len() as u64, &mut payload);
        push_bytes(&mut payload, sub_bytes);
        let id_text = self.client_id.to_string();
        let id_bytes: &[u8] = id_text.as_str().as_bytes();
        push_u64_bytes(id_bytes.len() as u64, &mut payload);
        push_bytes(&mut payload, id_bytes);
        push_u64_bytes(self.expires as u64, &mut payload);
        assert(payload@ =~= spec_payload_bytes(sub, id, self.expires));
        let sig = key.sign(payload.as_slice());
        let mut envelope = payload;
        push_bytes(&mut envelope, sig.0.as_str().as_bytes());
        assert(envelope@ =~= spec_envelope(sub, id, self.expires, key@));
        Ok(ReconnectToken(base64_encode(envelope.as_slice())))
    }

    /// Verifies a presented token against the key and the clock:
    /// exactly `spec_verify` of its text.
    pub fn verify(tok: ReconnectToken, key: &SigKey, now: i64) -> (r: Result<
        ReconnectTokenPayload,
        Error,
    >)
        ensures
            r is Ok <==> spec_verify(tok@, key@, now) is Ok,
            r is Ok ==> r->Ok_0@ == spec_verify(tok@, key@, now)->Ok_0,
            r is Err ==> Result::<PayloadModel, Error>::Err(r->Err_0) == spec_verify(
                tok@,
                key@,
                now,
            ),
    {
        let env: Vec<u8> = match base64_decode(tok.0.as_str()) {
            Some(env) => env,
            None => {
                return Err(Error::Malformed);
            },
        };
        let l: usize = env.len();
        if l < 88 {
            return Err(Error::Malformed);
        }
        let pl: usize = l - 64;
        let env_slice: &[u8] = env.as_slice();
        let len1_u64: u64 = read_u64_be(env_slice, 0);
        if len1_u64 > (pl - 24) as u64 {
            return Err(Error::Malformed);
        }
        let len1: usize = len1_u64 as usize;
        let len2_u64: u64 = read_u64_be(env_slice, 8 + len1);
        if len2_u64 != (pl - 24 - len1) as u64 {
            assert(spec_verify(tok@, key@, now) is Err);
            return Err(Error::Malformed);
        }
        let len2: usize = len2_u64 as usize;
        let subb: Vec<u8> = copy_range(env_slice, 8, 8 + len1);
        let idb: Vec<u8> = copy_range(env_slice, 16 + len1, 16 + len1 + len2);
        let expires: i64 = read_u64_be(env_slice, 16 + len1 + len2) as i64;
        let payload: Vec<u8> = copy_range(env_slice, 0, pl);
        let sigb: Vec<u8> = copy_range(env_slice, pl, l);
        proof {
            assert(env@.take(pl as int) =~= env@.subrange(0, pl as int));
            assert(env@.skip(pl as int) =~= env@.subrange(pl as int, l as int));
        }
        let expected = key.sign(payload.as_slice());
        if !bytes_eq_total(sigb.as_slice(), expected.0.as_str().as_bytes()) {
            return Err(Error::InvalidSignature);
        }
        let sub_text = match string_from_utf8(subb) {
            Some(s) => s,
            None => {
                return Err(Error::Malformed);
            },
        };
        let id_text = match string_from_utf8(idb) {
            Some(s) => s,
            None => {
                return Err(Error::Malformed);
            },
        };
        if expires <= now {
            return Err(Error::Expired);
        }
        Ok(
            ReconnectTokenPayload {
                sub_domain: sub_text,
                client_id: ClientId::from_text(id_text),
                expires,
            },
        )
    }
}

/// Token round trip: a token text that decodes to the signed envelope
/// of a payload verifies back to exactly that payload while the expiry
/// is in the future, and reports expiry once it is not.
pub proof fn lemma_token_round_trip(
    tok: Seq<char>,
    sub: Seq<char>,
    id: Seq<char>,
    expires: i64,
    key: Seq<u8>,
    now: i64,
)
    ensures
        (base64_decode_of(tok) == Some(spec_envelope(sub, id, expires, key)) && encode_utf8(
            sub,
        ).len() <= u64::MAX && encode_utf8(id).len() <= u64::MAX && hmac_of(
            key,
            spec_payload_bytes(sub, id, expires),
        ).len() == 32) ==> spec_verify(
            tok,
            key,
            now,
        ) == (if expires > now {
            Ok(PayloadModel { sub_domain: sub, client_id: id, expires })
        } else {
            Err(Error::Expired)
        }),
{
    if base64_decode_of(tok) == Some(spec_envelope(sub, id, expires, key)) && encode_utf8(
        sub,
    ).len() <= u64::MAX && encode_utf8(id).len() <= u64::MAX && hmac_of(
        key,
        spec_payload_bytes(sub, id, expires),
    ).len() == 32 {
        let n1 = encode_utf8(sub).len() as int;
        let n2 = encode_utf8(id).len() as int;
        let payload = spec_payload_bytes(sub, id, expires);
        let sig = encode_utf8(spec_hex(hmac_of(key, payload)));
        let env = spec_envelope(sub, id, expires, key);
        assert(payload.len() == 24 + n1 + n2);
        assert(sig.len() == 64) by {
            lemma_hex64_ascii(hmac_of(key, payload));
        }
        let l = env.len() as int;
        assert(l == 88 + n1 + n2);
        let pl = l - 64;
        assert(env.subrange(0, 8) =~= spec_u64_bytes(encode_utf8(sub).len() as u64));
        crate::codec::lemma_u64_bytes_round_trip(encode_utf8(sub).len() as u64);
        let len1 = spec_bytes_u64(env.subrange(0, 8)) as int;
        assert(len1 == n1);
        assert(env.subrange(8 + len1, 16 + len1) =~= spec_u64_bytes(
            encode_utf8(id).len() as u64,
        ));
        crate::codec::lemma_u64_bytes_round_trip(encode_utf8(id).len() as u64);
        let len2 = spec_bytes_u64(env.subrange(8 + len1, 16 + len1)) as int;
        assert(len2 == n2);
        assert(env.subrange(8, 8 + len1) =~= encode_utf8(sub));
        assert(env.subrange(16 + len1, 16 + len1 + len2) =~= encode_utf8(id));
        assert(env.subrange(16 + len1 + len2, pl) =~= spec_u64_bytes(expires as u64));
        crate::codec::lemma_u64_bytes_round_trip(expires as u64);
        let back = spec_bytes_u64(env.subrange(16 + len1 + len2, pl));
        assert(back == expires as u64);
        assert(back as i64 == expires) by (bit_vector)
            requires
                back == expires as u64,
        ;
        assert(env.take(pl) =~= payload);
        assert(env.skip(pl) =~= sig);
        vstd::utf8::encode_utf8_valid_utf8(sub);
        vstd::utf8::encode_utf8_decode_utf8(sub);
        vstd::utf8::encode_utf8_valid_utf8(id);
        vstd::utf8::encode_utf8_decode_utf8(id);
    }
}

/// The hex text of a 32-byte tag has 64 characters, each ASCII.
proof fn lemma_hex64_ascii(mac: Seq<u8>)
    requires
        mac.len() == 32,
    ensures
        encode_utf8(spec_hex(mac)).len() == 64,
{
    let text = spec_hex(mac);
    assert(text.len() == 64);
    assert(vstd::utf8::is_ascii_chars(text)) by {
        assert(forall|i: int|
            0 <= i < text.len() ==> '\0' <= #[trigger] text[i] <= '\u{7f}');
    }
    vstd::utf8::is_ascii_chars_encode_utf8(text);
}

} // verus!

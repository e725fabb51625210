//! Reconnect token behavior: signing round trips, expiry, tampering,
//! and the key's hex form.
use tunnelto::auth::{SigKey, Signature};
use tunnelto::ids::ClientId;
use tunnelto::reconnect_token::{Error, ReconnectTokenPayload};

fn sample_payload(expires: i64) -> ReconnectTokenPayload {
    ReconnectTokenPayload {
        sub_domain: "abcd1234".to_string(),
        client_id: ClientId::from_text("client-one".to_string()),
        expires,
    }
}

#[test]
fn verify_inverts_sign_while_fresh() {
    let key = SigKey::generate();
    let token = sample_payload(1_000).into_token(&key).expect("signing succeeds");
    let payload = ReconnectTokenPayload::verify(token, &key, 999).expect("fresh token verifies");
    assert_eq!(payload.sub_domain, "abcd1234");
    assert_eq!(payload.client_id.to_string(), "client-one");
    assert_eq!(payload.expires, 1_000);
}

#[test]
fn expired_token_reports_expiry() {
    let key = SigKey::generate();
    let token = sample_payload(1_000).into_token(&key).expect("signing succeeds");
    match ReconnectTokenPayload::verify(token, &key, 1_000) {
        Err(Error::Expired) => {}
        other => panic!("a token at its expiry must be expired, got {:?}", other),
    }
}

#[test]
fn flipped_payload_byte_breaks_the_signature() {
    let key = SigKey::generate();
    let token = sample_payload(1_000).into_token(&key).expect("signing succeeds");
    let mut envelope = base64::decode(&token.0).expect("token text is base64");
    // Flip a bit inside the subdomain text, which starts after the
    // eight-byte length prefix.
    envelope[8] ^= 0x01;
    let tampered = tunnelto::codec::ReconnectToken(base64::encode(&envelope));
    match ReconnectTokenPayload::verify(tampered, &key, 0) {
        Err(Error::InvalidSignature) => {}
        other => panic!("a tampered bundle must fail its signature, got {:?}", other),
    }
}

#[test]
fn wrong_key_fails_the_signature() {
    let key = SigKey::generate();
    let other_key = SigKey::generate();
    let token = sample_payload(1_000).into_token(&key).expect("signing succeeds");
    match ReconnectTokenPayload::verify(token, &other_key, 0) {
        Err(Error::InvalidSignature) => {}
        other => panic!("another key must fail the signature, got {:?}", other),
    }
}

#[test]
fn garbage_token_is_malformed() {
    let key = SigKey::generate();
    let garbage = tunnelto::codec::ReconnectToken("not base64 !!!".to_string());
    match ReconnectTokenPayload::verify(garbage, &key, 0) {
        Err(Error::Malformed) => {}
        other => panic!("garbage must be malformed, got {:?}", other),
    }
}

#[test]
fn key_round_trips_through_hex() {
    let hex_text = "000102030405060708090a0b0c0d0e0f101112131415161718191a1b1c1d1e1f";
    let key = SigKey::from_hex(hex_text).expect("64 hex digits make a key");
    let sig = key.sign(b"hello");
    assert!(key.verify(b"hello", &sig));
    assert!(!key.verify(b"hullo", &sig));
}

#[test]
fn signature_check_reads_every_byte_position() {
    let key = SigKey::from_hex(
        "000102030405060708090a0b0c0d0e0f101112131415161718191a1b1c1d1e1f",
    )
    .expect("key parses");
    let Signature(text) = key.sign(b"data");
    // A mismatch in the first and in the last digit are both caught.
    let mut first = text.clone().into_bytes();
    first[0] = if first[0] == b'0' { b'1' } else { b'0' };
    let first = Signature(String::from_utf8(first).expect("still text"));
    assert!(!key.verify(b"data", &first));
    let mut last = text.into_bytes();
    let end = last.len() - 1;
    last[end] = if last[end] == b'0' { b'1' } else { b'0' };
    let last = Signature(String::from_utf8(last).expect("still text"));
    assert!(!key.verify(b"data", &last));
}

#[test]
fn bad_hex_is_refused() {
    assert!(SigKey::from_hex("abcd").is_err());
    assert!(SigKey::from_hex("zz0102030405060708090a0b0c0d0e0f101112131415161718191a1b1c1d1e1f").is_err());
}

#[test]
fn signature_is_lowercase_hex_of_the_mac() {
    let key = SigKey::from_hex(
        "000102030405060708090a0b0c0d0e0f101112131415161718191a1b1c1d1e1f",
    )
    .expect("key parses");
    let Signature(text) = key.sign(b"data");
    assert_eq!(text.len(), 64);
    assert!(text.chars().all(|c| c.is_ascii_hexdigit() && !c.is_ascii_uppercase()));
    let expected = hmac_sha256::HMAC::mac(
        b"data",
        &hex::decode("000102030405060708090a0b0c0d0e0f101112131415161718191a1b1c1d1e1f")
            .expect("hex parses"),
    );
    assert_eq!(text, hex::encode(expected));
}

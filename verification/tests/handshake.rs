//! Handshake policy: anonymous rejection, key auth with and without a
//! subdomain wish, conflicts, canonicalization, and reconnect tokens.
use sha2::Digest;
use tunnelto::auth::{AuthResult, SigKey};
use tunnelto::client_auth::{handshake_auth_answer, handshake_fleet_answer, handshake_start,
    HandshakePhase};
use tunnelto::codec::ReconnectToken;
use tunnelto::control_server::{ping_packet, success_hello};
use tunnelto::hello::{ClientHello, ClientType, ServerHello};
use tunnelto::ids::{ClientId, SecretKey};
use tunnelto::reconnect_token::ReconnectTokenPayload;

fn no_blocked() -> Vec<String> {
    Vec::new()
}

#[test]
fn anonymous_without_token_is_rejected() {
    let hello = ClientHello::generate(None, ClientType::Anonymous);
    let key = SigKey::generate();
    match handshake_start(hello, &no_blocked(), &key, 0) {
        HandshakePhase::Reject(ServerHello::AuthFailed) => {}
        _ => panic!("anonymous hello without token must fail authentication"),
    }
}

#[test]
fn auth_without_wish_draws_a_random_label() {
    let key = SigKey::generate();
    let hello = ClientHello::generate(
        None,
        ClientType::Auth { key: SecretKey("k1".to_string()) },
    );
    match handshake_start(hello, &no_blocked(), &key, 0) {
        HandshakePhase::Authorize { client_id, sub_domain, .. } => {
            assert_eq!(sub_domain.len(), 8);
            assert!(sub_domain
                .chars()
                .all(|c| c.is_ascii_lowercase() || c.is_ascii_digit()));
            let expected = base64::encode(sha2::Sha256::digest(b"k1").to_vec());
            assert_eq!(client_id.to_string(), expected);
        }
        _ => panic!("an authenticated hello without a wish must go to authorization"),
    }
}

#[test]
fn auth_with_wish_is_canonicalized() {
    let key = SigKey::generate();
    let hello = ClientHello::generate(
        Some("My-App".to_string()),
        ClientType::Auth { key: SecretKey("k1".to_string()) },
    );
    match handshake_start(hello, &no_blocked(), &key, 0) {
        HandshakePhase::CheckFleet { sub_domain, .. } => assert_eq!(sub_domain, "my-app"),
        _ => panic!("a valid wish must go to the fleet check"),
    }
}

#[test]
fn invalid_wish_is_rejected() {
    let key = SigKey::generate();
    let hello = ClientHello::generate(
        Some("foo_bar".to_string()),
        ClientType::Auth { key: SecretKey("k1".to_string()) },
    );
    match handshake_start(hello, &no_blocked(), &key, 0) {
        HandshakePhase::Reject(ServerHello::InvalidSubDomain) => {}
        _ => panic!("an underscore in the wish must be invalid"),
    }
}

#[test]
fn blocked_wish_reads_as_taken() {
    let key = SigKey::generate();
    let blocked = vec!["dashboard".to_string()];
    let hello = ClientHello::generate(
        Some("Dashboard".to_string()),
        ClientType::Auth { key: SecretKey("k1".to_string()) },
    );
    match handshake_start(hello, &blocked, &key, 0) {
        HandshakePhase::Reject(ServerHello::SubDomainInUse) => {}
        _ => panic!("a blocked subdomain must read as in use"),
    }
}

#[test]
fn fleet_conflict_loses_the_race() {
    let first = ClientId::from_text("first".to_string());
    let second_key = SecretKey("k2".to_string());
    let second = second_key.client_id();
    match handshake_fleet_answer(second_key, second, "my-app".to_string(), Some(first)) {
        HandshakePhase::Reject(ServerHello::SubDomainInUse) => {}
        _ => panic!("a subdomain already served elsewhere must be in use"),
    }
}

#[test]
fn fleet_self_ownership_proceeds() {
    let key = SecretKey("k1".to_string());
    let me = key.client_id();
    let me_again = key.client_id();
    match handshake_fleet_answer(key, me, "my-app".to_string(), Some(me_again)) {
        HandshakePhase::Authorize { sub_domain, .. } => assert_eq!(sub_domain, "my-app"),
        _ => panic!("serving a subdomain oneself is no conflict"),
    }
}

#[test]
fn auth_answers_map_to_verdicts() {
    let id = ClientId::from_text("c".to_string());
    assert!(handshake_auth_answer(id.clone(), "s".to_string(), Ok(AuthResult::Available)).is_ok());
    assert!(handshake_auth_answer(id.clone(), "s".to_string(), Ok(AuthResult::ReservedByYou))
        .is_ok());
    match handshake_auth_answer(id.clone(), "s".to_string(), Ok(AuthResult::ReservedByOther)) {
        Err(ServerHello::SubDomainInUse) => {}
        _ => panic!("a foreign reservation must read as in use"),
    }
    match handshake_auth_answer(
        id.clone(),
        "s".to_string(),
        Ok(AuthResult::ReservedByYouButDelinquent),
    ) {
        Err(ServerHello::AuthFailed) => {}
        _ => panic!("delinquency must fail authentication"),
    }
    match handshake_auth_answer(id.clone(), "s".to_string(), Ok(AuthResult::PaymentRequired)) {
        Err(ServerHello::AuthFailed) => {}
        _ => panic!("a payment wall must fail authentication"),
    }
    match handshake_auth_answer(id, "s".to_string(), Err(())) {
        Err(ServerHello::AuthFailed) => {}
        _ => panic!("a backend error must fail authentication"),
    }
}

#[test]
fn success_reply_carries_the_full_hostname() {
    let key = SecretKey("k1".to_string());
    let handshake = handshake_auth_answer(
        key.client_id(),
        "abcd1234".to_string(),
        Ok(AuthResult::Available),
    )
    .expect("available subdomain binds");
    let reply = success_hello(&handshake, &"tunnelto.dev".to_string());
    match reply {
        ServerHello::Success { sub_domain, hostname, client_id } => {
            assert_eq!(sub_domain, "abcd1234");
            assert_eq!(hostname, "abcd1234.tunnelto.dev");
            let expected = base64::encode(sha2::Sha256::digest(b"k1").to_vec());
            assert_eq!(client_id.to_string(), expected);
        }
        _ => panic!("an accepted handshake must succeed"),
    }
}

#[test]
fn reconnect_token_re_binds_the_subdomain() {
    let master = SigKey::generate();
    let payload = ReconnectTokenPayload {
        sub_domain: "abcd1234".to_string(),
        client_id: ClientId::from_text("old-client".to_string()),
        expires: 2_000,
    };
    let token = payload.into_token(&master).expect("signing succeeds");
    let hello = ClientHello::reconnect(token);
    match handshake_start(hello, &no_blocked(), &master, 1_000) {
        HandshakePhase::Accept(h) => {
            assert_eq!(h.sub_domain, "abcd1234");
            assert_eq!(h.id.to_string(), "old-client");
            assert!(h.is_anonymous);
        }
        _ => panic!("a fresh reconnect token must re-bind the client"),
    }
}

#[test]
fn stale_reconnect_token_is_rejected() {
    let master = SigKey::generate();
    let payload = ReconnectTokenPayload {
        sub_domain: "abcd1234".to_string(),
        client_id: ClientId::from_text("old-client".to_string()),
        expires: 2_000,
    };
    let token = payload.into_token(&master).expect("signing succeeds");
    let hello = ClientHello::reconnect(token);
    match handshake_start(hello, &no_blocked(), &master, 3_000) {
        HandshakePhase::Reject(ServerHello::AuthFailed) => {}
        _ => panic!("a stale token must fail authentication"),
    }
}

#[test]
fn anonymous_ping_carries_a_usable_token() {
    let master = SigKey::generate();
    let (tx, _rx) = futures::channel::mpsc::unbounded();
    let client = tunnelto::registry::ConnectedClient {
        id: ClientId::from_text("anon".to_string()),
        host: "abcd1234".to_string(),
        is_anonymous: true,
        tx,
    };
    match ping_packet(&client, &master, 100) {
        tunnelto::codec::ControlPacket::Ping(Some(token)) => {
            let payload = ReconnectTokenPayload::verify(
                ReconnectToken(token.0),
                &master,
                150,
            )
            .expect("the minted token verifies");
            assert_eq!(payload.sub_domain, "abcd1234");
            assert_eq!(payload.expires, 220);
        }
        _ => panic!("an anonymous client's ping must carry a token"),
    }
}

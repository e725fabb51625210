//! The server's side of the handshake: what a fresh hello leads to.
//! The policy is a small state machine from hello to verdict; the
//! outside steps — the fleet query and the authorization backend — are
//! taken as events, so the rules are verified for every answer they
//! may give.
use crate::auth::{AuthResult, SigKey};
use crate::crypto::{base64_of, sha256_of};
use crate::hello::{ClientHello, ClientType, ClientTypeModel, ServerHello};
use crate::ids::{ClientId, SecretKey};
use crate::reconnect_token::{spec_verify, ReconnectTokenPayload};
use crate::subdomain::{canonicalize_sub_domain, contains_text, list_contains, spec_canonical_ok};
use crate::text::{chars_of_ascii, spec_lower_bytes};
use vstd::prelude::*;
use vstd::string::StringSliceAdditionalSpecFns;

verus! {

/// A finished, accepted handshake: who the client is, which subdomain
/// it was bound to, and whether it came in on a reconnect token.
#[derive(Debug, Clone)]
pub struct ClientHandshake {
    pub id: ClientId,
    pub sub_domain: String,
    pub is_anonymous: bool,
}

/// Where the handshake stands after a step: finished one way or the
/// other, or waiting on an outside answer.
pub enum HandshakePhase {
    /// Send this reply and close the connection.
    Reject(ServerHello),
    /// Ask the fleet who serves this subdomain, then feed the answer
    /// to `fleet_answer`.
    CheckFleet { key: SecretKey, client_id: ClientId, sub_domain: String },
    /// Ask the authorization backend, then feed the answer to
    /// `auth_answer`.
    Authorize { key: SecretKey, client_id: ClientId, sub_domain: String },
    /// Bind the client.
    Accept(ClientHandshake),
}

/// First handshake step, on the hello alone.  Anonymous clients are
/// admitted only over a fresh reconnect token; authenticated clients
/// have their wish canonicalized and screened against the blocked
/// list, or draw a random label.
pub fn handshake_start(
    hello: ClientHello,
    blocked: &Vec<String>,
    master_key: &SigKey,
    now: i64,
) -> (r: HandshakePhase)
    ensures
        (hello@.client_type is Anonymous && hello@.reconnect_token is None) ==> (r matches
            HandshakePhase::Reject(reply) && reply@ is AuthFailed),
        hello@.client_type is Anonymous ==> (hello@.reconnect_token matches Some(tok)
            ==> (match spec_verify(tok, master_key@, now) {
            Ok(payload) => r matches HandshakePhase::Accept(h) && h.id@ == payload.client_id
                && h.sub_domain@ == payload.sub_domain && h.is_anonymous,
            Err(_) => r matches HandshakePhase::Reject(reply) && reply@ is AuthFailed,
        })),
        hello@.sub_domain is None ==> (hello@.client_type matches ClientTypeModel::Auth(k) ==> (r
            matches HandshakePhase::Authorize { key, client_id, sub_domain } && key@ == k
            && client_id@ == base64_of(sha256_of(vstd::utf8::encode_utf8(k)))
            && sub_domain@.len() == 8 && crate::hello::all_lower_alnum(sub_domain@))),
        hello@.client_type matches ClientTypeModel::Auth(k) ==> (hello@.sub_domain matches Some(
            wish,
        ) ==> {
            let canonical = chars_of_ascii(spec_lower_bytes(vstd::utf8::encode_utf8(wish)));
            if !spec_canonical_ok(vstd::utf8::encode_utf8(wish)) {
                r matches HandshakePhase::Reject(reply) && reply@ is InvalidSubDomain
            } else if contains_text(blocked@, canonical) {
                r matches HandshakePhase::Reject(reply) && reply@ is SubDomainInUse
            } else {
                r matches HandshakePhase::CheckFleet { key, client_id, sub_domain } && key@ == k
                    && client_id@ == base64_of(sha256_of(vstd::utf8::encode_utf8(k)))
                    && sub_domain@ == canonical
            }
        }),
{
    match hello.client_type {
        ClientType::Anonymous => {
            match hello.reconnect_token {
                Some(token) => {
                    match ReconnectTokenPayload::verify(token, master_key, now) {
                        Ok(payload) => HandshakePhase::Accept(
                            ClientHandshake {
                                id: payload.client_id,
                                sub_domain: payload.sub_domain,
                                is_anonymous: true,
                            },
                        ),
                        Err(_) => HandshakePhase::Reject(ServerHello::AuthFailed),
                    }
                },
                None => HandshakePhase::Reject(ServerHello::AuthFailed),
            }
        },
        ClientType::Auth { key } => {
            let client_id = key.client_id();
            match hello.sub_domain {
                Some(wish) => {
                    match canonicalize_sub_domain(wish.as_str()) {
                        None => HandshakePhase::Reject(ServerHello::InvalidSubDomain),
                        Some(sub_domain) => {
                            if list_contains(blocked, &sub_domain) {
                                HandshakePhase::Reject(ServerHello::SubDomainInUse)
                            } else {
                                HandshakePhase::CheckFleet { key, client_id, sub_domain }
                            }
                        },
                    }
                },
                None => {
                    let sub_domain = ServerHello::random_domain();
                    HandshakePhase::Authorize { key, client_id, sub_domain }
                },
            }
        },
    }
}

/// Second step: the fleet's answer about the wished-for subdomain.  A
/// different client already serving it ends the handshake; otherwise
/// the authorization backend is asked.
pub fn handshake_fleet_answer(
    key: SecretKey,
    client_id: ClientId,
    sub_domain: String,
    fleet_owner: Option<ClientId>,
) -> (r: HandshakePhase)
    ensures
        (match fleet_owner {
            Some(owner) => owner@ != client_id@,
            None => false,
        }) ==> (r matches HandshakePhase::Reject(reply) && reply@ is SubDomainInUse),
        (match fleet_owner {
            Some(owner) => owner@ == client_id@,
            None => true,
        }) ==> (r matches HandshakePhase::Authorize { key: k, client_id: c, sub_domain: s } && k@
            == key@ && c@ == client_id@ && s@ == sub_domain@),
{
    match fleet_owner {
        Some(owner) => {
            if !(owner == client_id) {
                return HandshakePhase::Reject(ServerHello::SubDomainInUse);
            }
            HandshakePhase::Authorize { key, client_id, sub_domain }
        },
        None => HandshakePhase::Authorize { key, client_id, sub_domain },
    }
}

/// Last step: the authorization backend's verdict.  Available or
/// reserved-by-you binds the client; delinquency and payment walls
/// fail authentication; a foreign reservation reports the subdomain
/// in use; a backend error fails authentication.
pub fn handshake_auth_answer(
    client_id: ClientId,
    sub_domain: String,
    answer: Result<AuthResult, ()>,
) -> (r: Result<ClientHandshake, ServerHello>)
    ensures
        (answer == Result::<AuthResult, ()>::Ok(AuthResult::Available) || answer == Result::<
            AuthResult,
            (),
        >::Ok(AuthResult::ReservedByYou)) ==> (r matches Ok(h) && h.id@ == client_id@
            && h.sub_domain@ == sub_domain@ && !h.is_anonymous),
        (answer == Result::<AuthResult, ()>::Ok(AuthResult::ReservedByYouButDelinquent) || answer
            == Result::<AuthResult, ()>::Ok(AuthResult::PaymentRequired) || answer is Err) ==> (r
            matches Err(reply) && reply@ is AuthFailed),
        answer == Result::<AuthResult, ()>::Ok(AuthResult::ReservedByOther) ==> (r matches Err(
            reply,
        ) && reply@ is SubDomainInUse),
{
    match answer {
        Ok(AuthResult::Available) | Ok(AuthResult::ReservedByYou) => Ok(
            ClientHandshake { id: client_id, sub_domain, is_anonymous: false },
        ),
        Ok(AuthResult::ReservedByYouButDelinquent) | Ok(AuthResult::PaymentRequired) => Err(
            ServerHello::AuthFailed,
        ),
        Ok(AuthResult::ReservedByOther) => Err(ServerHello::SubDomainInUse),
        Err(_) => Err(ServerHello::AuthFailed),
    }
}

} // verus!

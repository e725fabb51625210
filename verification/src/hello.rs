//! The JSON-carried handshake frames: the client's first message over
//! a fresh control connection, and the server's single reply.
use crate::codec::ReconnectToken;
use crate::ids::{ClientId, SecretKey};
use crate::ids::spec_is_lower_alnum;
use crate::ids::random_alnum_bytes_lower;
use crate::text::{chars_of_ascii, string_from_ascii};
use vstd::prelude::*;
use vstd::string::StringExecFns;

verus! {

/// How the client authenticates: with a secret key, or anonymously.
#[derive(Debug, Clone)]
pub enum ClientType {
    Auth { key: SecretKey },
    Anonymous,
}

/// The mathematical shape of a client type.
pub enum ClientTypeModel {
    Auth(Seq<char>),
    Anonymous,
}

impl View for ClientType {
    type V = ClientTypeModel;

    open spec fn view(&self) -> ClientTypeModel {
        match self {
            ClientType::Auth { key } => ClientTypeModel::Auth(key@),
            ClientType::Anonymous => ClientTypeModel::Anonymous,
        }
    }
}

/// The client's first message: a throwaway id, the wished-for
/// subdomain, the authentication kind, and a reconnect token if one
/// was stored.
#[derive(Debug, Clone)]
pub struct ClientHello {
    pub id: ClientId,
    pub sub_domain: Option<String>,
    pub client_type: ClientType,
    pub reconnect_token: Option<ReconnectToken>,
}

/// The mathematical shape of a client hello.
pub struct ClientHelloModel {
    pub sub_domain: Option<Seq<char>>,
    pub client_type: ClientTypeModel,
    pub reconnect_token: Option<Seq<char>>,
}

impl View for ClientHello {
    type V = ClientHelloModel;

    open spec fn view(&self) -> ClientHelloModel {
        ClientHelloModel {
            sub_domain: match &self.sub_domain {
                Some(s) => Some(s@),
                None => None,
            },
            client_type: self.client_type@,
            reconnect_token: match &self.reconnect_token {
                Some(t) => Some(t@),
                None => None,
            },
        }
    }
}

impl ClientHello {
    /// A fresh hello with the given wish and authentication kind.
    pub fn generate(sub_domain: Option<String>, typ: ClientType) -> (r: ClientHello)
        ensures
            r@.sub_domain == (match sub_domain {
                Some(s) => Some(s@),
                None => None::<Seq<char>>,
            }),
            r@.client_type == typ@,
            r@.reconnect_token is None,
    {
        ClientHello {
            id: ClientId::generate(),
            sub_domain,
            client_type: typ,
            reconnect_token: None,
        }
    }

    /// A hello that presents a stored reconnect token, anonymously and
    /// with no subdomain wish.
    pub fn reconnect(reconnect_token: ReconnectToken) -> (r: ClientHello)
        ensures
            r@.sub_domain is None,
            r@.client_type is Anonymous,
            r@.reconnect_token == Some(reconnect_token@),
    {
        ClientHello {
            id: ClientId::generate(),
            sub_domain: None,
            client_type: ClientType::Anonymous,
            reconnect_token: Some(reconnect_token),
        }
    }
}

/// The server's reply to a hello.
#[derive(Debug, Clone)]
pub enum ServerHello {
    Success { sub_domain: String, hostname: String, client_id: ClientId },
    SubDomainInUse,
    InvalidSubDomain,
    AuthFailed,
    Error(String),
}

/// The mathematical shape of a server hello.
pub enum ServerHelloModel {
    Success { sub_domain: Seq<char>, hostname: Seq<char>, client_id: Seq<char> },
    SubDomainInUse,
    InvalidSubDomain,
    AuthFailed,
    Error(Seq<char>),
}

impl View for ServerHello {
    type V = ServerHelloModel;

    open spec fn view(&self) -> ServerHelloModel {
        match self {
            ServerHello::Success { sub_domain, hostname, client_id } => ServerHelloModel::Success {
                sub_domain: sub_domain@,
                hostname: hostname@,
                client_id: client_id@,
            },
            ServerHello::SubDomainInUse => ServerHelloModel::SubDomainInUse,
            ServerHello::InvalidSubDomain => ServerHelloModel::InvalidSubDomain,
            ServerHello::AuthFailed => ServerHelloModel::AuthFailed,
            ServerHello::Error(e) => ServerHelloModel::Error(e@),
        }
    }
}

/// Whether every character of a label is a lowercase letter or digit.
pub open spec fn all_lower_alnum(s: Seq<char>) -> bool {
    forall|i: int| 0 <= i < s.len() ==> spec_is_lower_alnum((#[trigger] s[i]) as u8) && s[i]
        < '\u{80}'
}

impl ServerHello {
    /// A randomly assigned label: eight lowercase alphanumeric
    /// characters.
    pub fn random_domain() -> (r: String)
        ensures
            r@.len() == 8,
            all_lower_alnum(r@),
    {
        let bytes = random_alnum_bytes_lower(8);
        proof {
            assert(forall|i: int|
                0 <= i < bytes@.len() ==> #[trigger] chars_of_ascii(bytes@)[i] as u8 == bytes@[i]);
        }
        string_from_ascii(bytes)
    }

    /// A random label carrying a wished-for prefix: the prefix, a
    /// hyphen, and eight random lowercase alphanumeric characters.
    pub fn prefixed_random_domain(prefix: &str) -> (r: String)
        ensures
            r@.len() == prefix@.len() + 9,
            r@.take(prefix@.len() as int) == prefix@,
            r@[prefix@.len() as int] == '-',
            all_lower_alnum(r@.skip(prefix@.len() + 1 as int)),
    {
        let tail = Self::random_domain();
        let mut out = String::new();
        out.append(prefix);
        out.append("-");
        out.append(tail.as_str());
        proof {
            reveal_strlit("-");
            assert(out@ == prefix@ + "-"@ + tail@);
            assert(out@.take(prefix@.len() as int) =~= prefix@);
            assert(out@.skip(prefix@.len() + 1 as int) =~= tail@);
        }
        out
    }
}

} // verus!

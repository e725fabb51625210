//! The client agent's terminal and retryable error kinds.
use vstd::prelude::*;

verus! {

/// Why a wormhole run ended.  Transport kinds are retried with
/// backoff; handshake rejections are terminal.
#[derive(Debug, Clone)]
pub enum Error {
    /// The control WebSocket failed; the detail text travels along.
    WebSocketError(String),
    /// The server denied the connection.
    AuthenticationFailed,
    /// The server sent a malformed control frame.
    MalformedMessageFromServer,
    /// The requested subdomain was rejected as invalid.
    InvalidSubDomain,
    /// The requested subdomain is already taken.
    SubDomainInUse,
    /// The server reported its own error text.
    ServerError(String),
    /// The server's reply was not a recognizable hello.
    ServerReplyInvalid,
    /// The server never answered the hello.
    NoResponseFromServer,
    /// The server went silent.
    Timeout,
}

impl Error {
    /// Whether the client should retry with backoff rather than exit.
    pub fn is_retryable(&self) -> (r: bool)
        ensures
            r == (self is WebSocketError || self is NoResponseFromServer || self is Timeout),
    {
        match self {
            Error::WebSocketError(_) => true,
            Error::NoResponseFromServer => true,
            Error::Timeout => true,
            _ => false,
        }
    }
}

} // verus!

//! The client agent's control loop: what each frame from the server
//! leads to, how the first reply is read, and which hello a
//! configuration sends.  Socket work — dialing the local service,
//! sleeping out the close grace — happens outside; the rules here are
//! verified for every outcome of it.
use crate::channel::channel_send;
use crate::codec::{ControlPacket, ReconnectToken, StreamId};
use crate::error::Error;
use crate::hello::{ClientHello, ClientType, ServerHello};
use crate::ids::{ClientId, SecretKey};
use crate::local::StreamSenders;
use futures::channel::mpsc::UnboundedSender;
use vstd::prelude::*;

verus! {

/// Seconds the client lets trailing data drain after an end-of-stream
/// frame before closing the local socket.
pub const END_STREAM_GRACE: u64 = 5;

/// Seconds the client sleeps before reconnecting after a transport
/// error.
pub const RECONNECT_DELAY: u64 = 5;

/// What the control loop does with one frame from the server.
pub enum ClientAction {
    /// A stream-open notice: bookkeeping only.
    LogInit(StreamId),
    /// A keep-alive arrived (its token, if any, is now stored) and
    /// the pong went out.
    Pong,
    /// A refusal from the server is illegal.
    ProtocolError,
    /// An end-of-stream: close the local stream after the grace
    /// window.
    ScheduleClose(StreamId),
    /// Data for a live stream: already forwarded to its writer.
    Forwarded(StreamId),
    /// Data for an unknown stream: dial the local service, then
    /// register and forward, or refuse.
    OpenLocal(StreamId, Vec<u8>),
}

/// Handles one frame from the server.  A ping's token replaces the
/// stored one and a bare pong is sent back; data goes to its stream's
/// writer when the stream is live and otherwise asks for a local
/// dial; an end-of-stream is closed after the grace window; a refusal
/// is a protocol error.
pub fn client_handle_packet(
    packet: ControlPacket,
    streams: &StreamSenders,
    tunnel_tx: &UnboundedSender<ControlPacket>,
    stored_token: &mut Option<ReconnectToken>,
) -> (r: ClientAction)
    ensures
        (packet@ matches crate::codec::PacketModel::Init(sid) ==> r matches
            ClientAction::LogInit(s) && s.id == sid),
        packet@ is Ping ==> r is Pong,
        (packet@ matches crate::codec::PacketModel::Ping(tok) ==> (match tok {
            Some(t) => (*final(stored_token)) matches Some(st) && st@ == t,
            None => *final(stored_token) == *old(stored_token),
        })),
        !(packet@ is Ping) ==> *final(stored_token) == *old(stored_token),
        packet@ is Refused ==> r is ProtocolError,
        (packet@ matches crate::codec::PacketModel::End(sid) ==> r matches
            ClientAction::ScheduleClose(s) && s.id == sid),
        (packet@ matches crate::codec::PacketModel::Data(sid, d) ==> (if streams.ids().contains(
            sid,
        ) {
            r matches ClientAction::Forwarded(s) && s.id == sid
        } else {
            r matches ClientAction::OpenLocal(s, d2) && s.id == sid && d2@ == d
        })),
{
    match packet {
        ControlPacket::Init(sid) => ClientAction::LogInit(sid),
        ControlPacket::Ping(tok) => {
            match tok {
                Some(t) => {
                    *stored_token = Some(t);
                },
                None => {},
            }
            let _delivered = channel_send(tunnel_tx, ControlPacket::Ping(None));
            ClientAction::Pong
        },
        ControlPacket::Refused(_) => ClientAction::ProtocolError,
        ControlPacket::End(sid) => ClientAction::ScheduleClose(sid),
        ControlPacket::Data(sid, data) => {
            if streams.contains(&sid) {
                let data_clone = data.clone();
                let _delivered = streams.forward(&sid, data_clone);
                ClientAction::Forwarded(sid)
            } else {
                ClientAction::OpenLocal(sid, data)
            }
        },
    }
}

/// Tells the server a stream could not be opened locally.
pub fn refuse_stream(tunnel_tx: &UnboundedSender<ControlPacket>, sid: StreamId) -> (sent: bool) {
    channel_send(tunnel_tx, ControlPacket::Refused(sid))
}

/// Reads the server's reply to the hello: success carries the bound
/// subdomain, the public hostname and the client id; each rejection
/// maps to its terminal error.
pub fn server_hello_outcome(hello: ServerHello) -> (r: Result<(String, String, ClientId), Error>)
    ensures
        (hello@ matches crate::hello::ServerHelloModel::Success { sub_domain, hostname, client_id }
            ==> r matches Ok(t) && t.0@ == sub_domain && t.1@ == hostname && t.2@ == client_id),
        hello@ is AuthFailed ==> (r matches Err(e) && e is AuthenticationFailed),
        hello@ is InvalidSubDomain ==> (r matches Err(e) && e is InvalidSubDomain),
        hello@ is SubDomainInUse ==> (r matches Err(e) && e is SubDomainInUse),
        (hello@ matches crate::hello::ServerHelloModel::Error(msg) ==> r matches Err(e) && (e
            matches Error::ServerError(m) && m@ == msg)),
{
    match hello {
        ServerHello::Success { sub_domain, hostname, client_id } => Ok(
            (sub_domain, hostname, client_id),
        ),
        ServerHello::AuthFailed => Err(Error::AuthenticationFailed),
        ServerHello::InvalidSubDomain => Err(Error::InvalidSubDomain),
        ServerHello::SubDomainInUse => Err(Error::SubDomainInUse),
        ServerHello::Error(msg) => Err(Error::ServerError(msg)),
    }
}

/// The hello a configuration sends: a key authenticates; without one,
/// a stored reconnect token is presented, and failing that the client
/// goes anonymous.
pub fn client_hello_for_config(
    secret_key: Option<SecretKey>,
    sub_domain: Option<String>,
    stored_token: &Option<ReconnectToken>,
) -> (r: ClientHello)
    ensures
        secret_key matches Some(k) ==> (r@.client_type matches
            crate::hello::ClientTypeModel::Auth(k2) && k2 == k@ && r@.sub_domain == (match (
        sub_domain) {
            Some(s) => Some(s@),
            None => None::<Seq<char>>,
        }) && r@.reconnect_token is None),
        secret_key is None ==> (match stored_token {
            Some(t) => r@.client_type is Anonymous && r@.reconnect_token == Some(t@)
                && r@.sub_domain is None,
            None => r@.client_type is Anonymous && r@.reconnect_token is None && r@.sub_domain
                == (match sub_domain {
                Some(s) => Some(s@),
                None => None::<Seq<char>>,
            }),
        }),
{
    match secret_key {
        Some(key) => ClientHello::generate(sub_domain, ClientType::Auth { key }),
        None => match stored_token {
            Some(token) => ClientHello::reconnect(ReconnectToken(token.0.clone())),
            None => ClientHello::generate(sub_domain, ClientType::Anonymous),
        },
    }
}

} // verus!

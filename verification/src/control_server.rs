//! The control server's per-client work: admitting a finished
//! handshake into the registry, the success reply, the periodic ping
//! with its freshly minted reconnect token, and the routing of every
//! frame a client sends back.
use crate::active_stream::{ActiveStream, ActiveStreams, StreamMessage};
use crate::auth::SigKey;
use crate::channel::channel_send;
use crate::client_auth::ClientHandshake;
use crate::codec::{ControlPacket, ReconnectToken, StreamId};
use crate::crypto::{base64_of, hmac_of};
use crate::hello::ServerHello;
use crate::reconnect_token::{spec_envelope, ReconnectTokenPayload};
use crate::registry::{lookup_host, lookup_id, ConnectedClient, Connections};
use futures::channel::mpsc::UnboundedSender;
use vstd::prelude::*;
use vstd::string::StringExecFns;

verus! {

/// Seconds between keep-alive pings on a control connection.
pub const PING_INTERVAL: u64 = 30;

/// Seconds a freshly minted reconnect token stays valid.
pub const RECONNECT_TOKEN_TTL: i64 = 120;

/// Builds the reply for an accepted handshake: the bound subdomain,
/// the public hostname `<sub>.<tunnel host>`, and the client id.
pub fn success_hello(handshake: &ClientHandshake, tunnel_host: &String) -> (r: ServerHello)
    ensures
        (r@ matches crate::hello::ServerHelloModel::Success { sub_domain, hostname, client_id }
            && sub_domain == handshake.sub_domain@ && hostname == handshake.sub_domain@ + "."@
            + tunnel_host@ && client_id == handshake.id@),
{
    let mut hostname = String::new();
    hostname.append(handshake.sub_domain.as_str());
    hostname.append(".");
    hostname.append(tunnel_host.as_str());
    proof {
        reveal_strlit(".");
    }
    ServerHello::Success {
        sub_domain: handshake.sub_domain.clone(),
        hostname,
        client_id: handshake.id.clone(),
    }
}

/// Installs an accepted client in the registry and hands back the
/// entry the pump tasks hold.  The registry is updated exactly as by
/// `Connections::add`.
pub fn admit_client(
    conns: &mut Connections,
    handshake: ClientHandshake,
    tx: UnboundedSender<ControlPacket>,
) -> (r: ConnectedClient)
    requires
        old(conns).wf(),
    ensures
        final(conns).wf(),
        r@ == (crate::registry::ClientModel {
            id: handshake.id@,
            host: handshake.sub_domain@,
            is_anonymous: handshake.is_anonymous,
        }),
        forall|x: Seq<char>|
            lookup_id(final(conns).client_models(), x) == (if x == r@.id {
                Some(r@)
            } else {
                lookup_id(old(conns).client_models(), x)
            }),
        forall|h: Seq<char>|
            lookup_host(final(conns).host_models(), h) == (if h == r@.host {
                Some(r@)
            } else {
                lookup_host(old(conns).host_models(), h)
            }),
{
    let client = ConnectedClient {
        id: handshake.id,
        host: handshake.sub_domain,
        is_anonymous: handshake.is_anonymous,
        tx,
    };
    let entry = client.clone();
    conns.add(entry);
    client
}

/// Builds the periodic keep-alive: anonymous clients get a fresh
/// reconnect token for their subdomain, valid for the token TTL from
/// `now`; authenticated clients get a bare ping.
pub fn ping_packet(client: &ConnectedClient, master_key: &SigKey, now: i64) -> (r: ControlPacket)
    requires
        now + RECONNECT_TOKEN_TTL <= i64::MAX,
    ensures
        !client.is_anonymous ==> r@ == crate::codec::PacketModel::Ping(None),
        client.is_anonymous ==> r@ == crate::codec::PacketModel::Ping(
            Some(
                base64_of(
                    spec_envelope(
                        client@.host,
                        client@.id,
                        (now + RECONNECT_TOKEN_TTL) as i64,
                        master_key@,
                    ),
                ),
            ),
        ),
{
    if client.is_anonymous {
        let payload = ReconnectTokenPayload {
            sub_domain: client.host.clone(),
            client_id: client.id.clone(),
            expires: now + RECONNECT_TOKEN_TTL,
        };
        let token: ReconnectToken = match payload.into_token(master_key) {
            Ok(tok) => tok,
            Err(_) => {
                proof {
                    assert(false);
                }
                ReconnectToken(String::new())
            },
        };
        ControlPacket::Ping(Some(token))
    } else {
        ControlPacket::Ping(None)
    }
}

/// Picks the address a control connection is charged to: the
/// proxy-reported client address first, then the first forwarded hop,
/// then the socket's remote end, and a zero address failing all.
pub fn choose_client_ip(
    direct: Option<String>,
    forwarded: Option<String>,
    remote: Option<String>,
) -> (r: String)
    ensures
        (match (direct, forwarded, remote) {
            (Some(d), _, _) => r@ == d@,
            (None, Some(f), _) => r@ == f@,
            (None, None, Some(m)) => r@ == m@,
            (None, None, None) => r@ == "0.0.0.0"@,
        }),
{
    match direct {
        Some(d) => d,
        None => match forwarded {
            Some(f) => f,
            None => match remote {
                Some(m) => m,
                None => {
                    let fallback: String = "0.0.0.0".to_owned();
                    proof {
                        reveal_strlit("0.0.0.0");
                    }
                    fallback
                },
            },
        },
    }
}

/// What the pump-in loop does with one frame from a client.
pub enum ClientPacketAction {
    /// Deliver these bytes to the stream's writer task.
    ForwardData(StreamId, Vec<u8>),
    /// Tell the stream's writer task the tunnel was refused.
    ForwardRefused(StreamId),
    /// `Init` and `End` are illegal from a client.
    ProtocolViolation,
    /// A pong: refresh the client's registry entries.
    Refresh,
}

/// Handles one frame from a client: data and refusals go to the named
/// stream's channel if it is still live (and are dropped otherwise),
/// `Init` and `End` are flagged as protocol violations, and a ping
/// re-registers the client.  The registry changes exactly on a ping.
pub fn handle_client_packet(
    packet: ControlPacket,
    streams: &ActiveStreams,
    conns: &mut Connections,
    client: &ConnectedClient,
) -> (r: ClientPacketAction)
    requires
        old(conns).wf(),
        streams.wf(),
    ensures
        final(conns).wf(),
        (packet@ matches crate::codec::PacketModel::Data(sid, d) ==> r matches
            ClientPacketAction::ForwardData(s2, d2) && s2.id == sid && d2@ == d),
        (packet@ matches crate::codec::PacketModel::Refused(sid) ==> r matches
            ClientPacketAction::ForwardRefused(s2) && s2.id == sid),
        (packet@ is Init || packet@ is End) ==> r is ProtocolViolation,
        packet@ is Ping ==> r is Refresh,
        !(packet@ is Ping) ==> final(conns).client_models() == old(conns).client_models()
            && final(conns).host_models() == old(conns).host_models(),
        packet@ is Ping ==> (forall|x: Seq<char>|
            lookup_id(final(conns).client_models(), x) == (if x == client@.id {
                Some(client@)
            } else {
                lookup_id(old(conns).client_models(), x)
            })) && (forall|h: Seq<char>|
            lookup_host(final(conns).host_models(), h) == (if h == client@.host {
                Some(client@)
            } else {
                lookup_host(old(conns).host_models(), h)
            })),
{
    match packet {
        ControlPacket::Data(sid, data) => {
            match streams.get(&sid) {
                Some(stream) => {
                    let payload = data.clone();
                    let _delivered = channel_send(&stream.tx, StreamMessage::Data(payload));
                    ClientPacketAction::ForwardData(sid, data)
                },
                None => ClientPacketAction::ForwardData(sid, data),
            }
        },
        ControlPacket::Refused(sid) => {
            match streams.get(&sid) {
                Some(stream) => {
                    let _delivered = channel_send(&stream.tx, StreamMessage::TunnelRefused);
                    ClientPacketAction::ForwardRefused(sid)
                },
                None => ClientPacketAction::ForwardRefused(sid),
            }
        },
        ControlPacket::Init(_) | ControlPacket::End(_) => ClientPacketAction::ProtocolViolation,
        ControlPacket::Ping(_) => {
            conns.add(client.clone());
            ClientPacketAction::Refresh
        },
    }
}

/// Sends the stream-open frame to the stream's client; a dead channel
/// means the client is gone, and its registry entries are released as
/// by `Connections::remove`.
pub fn send_client_stream_init(stream: &ActiveStream, conns: &mut Connections) -> (sent: bool)
    requires
        old(conns).wf(),
    ensures
        final(conns).wf(),
        sent ==> final(conns).client_models() == old(conns).client_models() && final(conns)
            .host_models() == old(conns).host_models(),
        !sent ==> (forall|x: Seq<char>|
            lookup_id(final(conns).client_models(), x) == (if x == stream@.client.id {
                None
            } else {
                lookup_id(old(conns).client_models(), x)
            })) && (forall|h: Seq<char>|
            lookup_host(final(conns).host_models(), h) == (if h == stream@.client.host && lookup_host(
                old(conns).host_models(),
                h,
            ) is Some && lookup_host(old(conns).host_models(), h)->0.id == stream@.client.id {
                None
            } else {
                lookup_host(old(conns).host_models(), h)
            })),
{
    let sent = channel_send(&stream.client.tx, ControlPacket::Init(stream.id));
    if !sent {
        conns.remove(&stream.client);
    }
    sent
}

} // verus!

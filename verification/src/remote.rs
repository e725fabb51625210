//! The public edge: peeking the request head of a fresh TCP
//! connection, deciding where it goes, and the per-stream pump rules
//! that splice it onto a client's control channel.
use crate::codec::{ControlPacket, StreamId};
use crate::httphead::{
    find_header, parse_request_head, spec_find_byte_from, spec_find_header, spec_request_head,
    RequestHead,
};
use crate::subdomain::contains_text;
use crate::text::{all_ascii, bytes_eq, chars_of_ascii, lower_byte, spec_lower_bytes,
    string_from_ascii, string_from_utf8};
use vstd::prelude::*;
use vstd::string::StringSliceAdditionalSpecFns;
use vstd::utf8::encode_utf8;

verus! {

/// The fixed sentinel path that answers the public-port health check.
pub open spec fn spec_health_check_path() -> Seq<u8> {
    encode_utf8("/0xDEADBEEF_HEALTH_CHECK"@)
}

/// The health-check sentinel path, as bytes.
pub fn health_check_path() -> (r: Vec<u8>)
    ensures
        r@ == spec_health_check_path(),
{
    let s: &str = "/0xDEADBEEF_HEALTH_CHECK";
    let b: &[u8] = s.as_bytes();
    crate::codec::copy_range(b, 0, b.len())
}

/// The label whose traffic is spliced to the control port.
pub open spec fn spec_control_prefix() -> Seq<u8> {
    encode_utf8("wormhole"@)
}

/// Whether a byte sequence is the rendering of one of the listed
/// texts.
pub open spec fn contains_bytes(list: Seq<String>, b: Seq<u8>) -> bool {
    exists|i: int| 0 <= i < list.len() && encode_utf8((#[trigger] list[i])@) == b
}

/// Whether the list holds a text rendered as these bytes.
pub fn list_contains_bytes(list: &Vec<String>, b: &[u8]) -> (r: bool)
    ensures
        r == contains_bytes(list@, b@),
{
    let n: usize = list.len();
    let mut i: usize = 0;
    while i < n
        invariant
            n == list@.len(),
            0 <= i <= n,
            forall|j: int| 0 <= j < i ==> encode_utf8((#[trigger] list@[j])@) != b@,
        decreases n - i,
    {
        if bytes_eq(list[i].as_str().as_bytes(), b) {
            return true;
        }
        i = i + 1;
    }
    false
}

/// The subdomain a full public host denotes, if its root is served
/// here: the host is taken without its port, case-folded (ASCII only;
/// anything else is rejected), and split at its first dot into the
/// prefix and the root; the prefix is the subdomain when the root is
/// an allowed host.
pub open spec fn spec_host_prefix(b: Seq<u8>, allowed: Seq<String>) -> Option<Seq<u8>> {
    if !all_ascii(b) {
        None
    } else {
        let no_port = match spec_find_byte_from(b, 0x3a, 0) {
            None => b,
            Some(i) => b.take(i),
        };
        let low = spec_lower_bytes(no_port);
        let parts = match spec_find_byte_from(low, 0x2e, 0) {
            None => (low, Seq::<u8>::empty()),
            Some(i) => (low.take(i), low.skip(i + 1)),
        };
        if contains_bytes(allowed, parts.1) {
            Some(parts.0)
        } else {
            None
        }
    }
}

/// Splits a host into its subdomain prefix, when its root is allowed.
pub fn validate_host_prefix(host: &String, allowed: &Vec<String>) -> (r: Option<Vec<u8>>)
    ensures
        match r {
            Some(p) => Some(p@) == spec_host_prefix(encode_utf8(host@), allowed@),
            None => spec_host_prefix(encode_utf8(host@), allowed@) is None,
        },
{
    let b: &[u8] = host.as_str().as_bytes();
    assert(b@ == encode_utf8(host@));
    let n: usize = b.len();
    let mut i: usize = 0;
    while i < n
        invariant
            b@ == encode_utf8(host@),
            n == b@.len(),
            0 <= i <= n,
            forall|j: int| 0 <= j < i ==> #[trigger] b@[j] < 0x80,
        decreases n - i,
    {
        if b[i] >= 0x80 {
            assert(!all_ascii(b@));
            return None;
        }
        i = i + 1;
    }
    assert(all_ascii(b@));
    let no_port: Vec<u8> = match crate::httphead::find_byte(b, 0x3a) {
        None => crate::codec::copy_range(b, 0, n),
        Some(i) => crate::codec::copy_range(b, 0, i),
    };
    proof {
        assert(b@.subrange(0, n as int) =~= b@);
    }
    let mut low: Vec<u8> = Vec::new();
    let m: usize = no_port.len();
    let mut k: usize = 0;
    while k < m
        invariant
            m == no_port@.len(),
            0 <= k <= m,
            low@ == spec_lower_bytes(no_port@.take(k as int)),
        decreases m - k,
    {
        low.push(lower_byte(no_port[k]));
        assert(low@ =~= spec_lower_bytes(no_port@.take(k + 1)));
        k = k + 1;
    }
    assert(no_port@.take(m as int) =~= no_port@);
    let lown: usize = low.len();
    match crate::httphead::find_byte(low.as_slice(), 0x2e) {
        None => {
            let empty_rest: Vec<u8> = Vec::new();
            if list_contains_bytes(allowed, empty_rest.as_slice()) {
                proof {
                    assert(empty_rest@ =~= Seq::<u8>::empty());
                }
                Some(low)
            } else {
                proof {
                    assert(empty_rest@ =~= Seq::<u8>::empty());
                }
                None
            }
        },
        Some(i) => {
            let prefix = crate::codec::copy_range(low.as_slice(), 0, i);
            let rest = crate::codec::copy_range(low.as_slice(), i + 1, lown);
            proof {
                assert(prefix@ =~= low@.take(i as int));
                assert(rest@ =~= low@.skip(i + 1));
            }
            if list_contains_bytes(allowed, rest.as_slice()) {
                Some(prefix)
            } else {
                None
            }
        },
    }
}

/// Where a fresh public connection goes.
pub enum EdgeDecision {
    /// No complete head or no `Host:` header: close silently.
    Drop,
    /// The health-check sentinel path: answer 200 and close.
    HealthCheck,
    /// The bare allowed root itself: redirect to the landing page.
    Redirect,
    /// A host whose root is not served here: answer 400 and close.
    InvalidHost,
    /// The control label: splice the socket to the control port.
    ControlPassThrough,
    /// A tunnel subdomain: route to its client.
    Route(String),
}

/// Decides where a peeked public connection goes.  A connection
/// without a complete head or without a `Host:` header is dropped;
/// the health-check path is answered without touching any registry;
/// the bare allowed root redirects; an unknown root is refused; the
/// control label passes through; anything else routes by subdomain.
pub fn edge_route(peeked: &[u8], allowed_hosts: &Vec<String>) -> (r: EdgeDecision)
    ensures
        spec_request_head(peeked@) is None ==> r is Drop,
        (spec_request_head(peeked@) matches Some(h) ==> {
            let host = spec_find_header(h.headers, encode_utf8("host"@));
            if h.path == spec_health_check_path() {
                r is HealthCheck
            } else if host is None {
                r is Drop
            } else if !vstd::utf8::valid_utf8(host->0) {
                r is Drop
            } else if contains_text(
                allowed_hosts@,
                vstd::utf8::decode_utf8(host->0),
            ) {
                r is Redirect
            } else {
                match spec_host_prefix(host->0, allowed_hosts@) {
                    None => r is InvalidHost,
                    Some(prefix) => if prefix == spec_control_prefix() {
                        r is ControlPassThrough
                    } else {
                        r matches EdgeDecision::Route(s) && s@ == chars_of_ascii(prefix)
                    },
                }
            }
        }),
{
    let head: RequestHead = match parse_request_head(peeked) {
        Some(h) => h,
        None => {
            return EdgeDecision::Drop;
        },
    };
    let health = health_check_path();
    if bytes_eq(head.path.as_slice(), health.as_slice()) {
        return EdgeDecision::HealthCheck;
    }
    let host_name: &str = "host";
    proof {
        reveal_strlit("host");
    }
    let host_bytes: Vec<u8> = match find_header(&head.headers, host_name.as_bytes()) {
        Some(v) => v,
        None => {
            return EdgeDecision::Drop;
        },
    };
    let ghost hb = host_bytes@;
    let host: String = match string_from_utf8(host_bytes) {
        Some(s) => s,
        None => {
            return EdgeDecision::Drop;
        },
    };
    proof {
        vstd::utf8::decode_utf8_encode_utf8(hb);
        assert(encode_utf8(host@) == hb);
    }
    if crate::subdomain::list_contains(allowed_hosts, &host) {
        return EdgeDecision::Redirect;
    }
    let prefix: Vec<u8> = match validate_host_prefix(&host, allowed_hosts) {
        Some(p) => p,
        None => {
            return EdgeDecision::InvalidHost;
        },
    };
    let control: &str = "wormhole";
    proof {
        reveal_strlit("wormhole");
    }
    if bytes_eq(prefix.as_slice(), control.as_bytes()) {
        return EdgeDecision::ControlPassThrough;
    }
    proof {
        lemma_host_prefix_ascii(encode_utf8(host@), allowed_hosts@);
    }
    EdgeDecision::Route(string_from_ascii(prefix))
}

/// A host prefix is ASCII: it comes from an ASCII host.
proof fn lemma_host_prefix_ascii(b: Seq<u8>, allowed: Seq<String>)
    ensures
        spec_host_prefix(b, allowed) matches Some(p) ==> all_ascii(p),
{
    if spec_host_prefix(b, allowed) is Some {
        let no_port = match spec_find_byte_from(b, 0x3a, 0) {
            None => b,
            Some(i) => b.take(i),
        };
        crate::httphead::lemma_find_byte_in_range(b, 0x3a);
        let low = spec_lower_bytes(no_port);
        assert(all_ascii(low)) by {
            assert(forall|j: int| 0 <= j < no_port.len() ==> #[trigger] no_port[j] < 0x80);
            assert(forall|j: int|
                0 <= j < low.len() ==> #[trigger] low[j] == crate::text::spec_lower_byte(
                    no_port[j],
                ));
        }
        crate::httphead::lemma_find_byte_in_range(low, 0x2e);
        match spec_find_byte_from(low, 0x2e, 0) {
            None => {},
            Some(i) => {
                assert(forall|j: int|
                    0 <= j < low.take(i).len() ==> #[trigger] low.take(i)[j] < 0x80);
            },
        }
    }
}

/// The fixed response texts the edge writes before closing.
pub enum EdgeResponse {
    /// The bare root was requested: point at the landing page.
    Redirect,
    /// The host's root is not served here.
    InvalidHostname,
    /// No client serves the subdomain.
    TunnelNotFound,
    /// The fleet lookup itself failed.
    ErrorLocatingHost,
    /// The client refused the tunnel.
    TunnelRefused,
    /// Proxying to the owning instance failed.
    ErrorProxyingTunnel,
    /// The health check.
    HealthOk,
}

/// The bytes of a fixed edge response.
pub open spec fn spec_response_bytes(kind: EdgeResponse) -> Seq<u8> {
    match kind {
        EdgeResponse::Redirect => encode_utf8(
            "HTTP/1.1 301 Moved Permanently\r\nLocation: https://tunnelto.dev/\r\nContent-Length: 20\r\n\r\nhttps://tunnelto.dev"@,
        ),
        EdgeResponse::InvalidHostname => encode_utf8(
            "HTTP/1.1 400\r\nContent-Length: 23\r\n\r\nError: Invalid Hostname"@,
        ),
        EdgeResponse::TunnelNotFound => encode_utf8(
            "HTTP/1.1 404\r\nContent-Length: 23\r\n\r\nError: Tunnel Not Found"@,
        ),
        EdgeResponse::ErrorLocatingHost => encode_utf8(
            "HTTP/1.1 500\r\nContent-Length: 27\r\n\r\nError: Error finding tunnel"@,
        ),
        EdgeResponse::TunnelRefused => encode_utf8(
            "HTTP/1.1 500\r\nContent-Length: 32\r\n\r\nTunnel says: connection refused."@,
        ),
        EdgeResponse::ErrorProxyingTunnel => encode_utf8(
            "HTTP/1.1 500\r\nContent-Length: 28\r\n\r\nError: Error proxying tunnel"@,
        ),
        EdgeResponse::HealthOk => encode_utf8(
            "HTTP/1.1 200 OK\r\nContent-Length: 2\r\n\r\nok"@,
        ),
    }
}

/// Renders a fixed edge response.
pub fn response_bytes(kind: EdgeResponse) -> (r: Vec<u8>)
    ensures
        r@ == spec_response_bytes(kind),
{
    let text: &str = match kind {
        EdgeResponse::Redirect => "HTTP/1.1 301 Moved Permanently\r\nLocation: https://tunnelto.dev/\r\nContent-Length: 20\r\n\r\nhttps://tunnelto.dev",
        EdgeResponse::InvalidHostname => "HTTP/1.1 400\r\nContent-Length: 23\r\n\r\nError: Invalid Hostname",
        EdgeResponse::TunnelNotFound => "HTTP/1.1 404\r\nContent-Length: 23\r\n\r\nError: Tunnel Not Found",
        EdgeResponse::ErrorLocatingHost => "HTTP/1.1 500\r\nContent-Length: 27\r\n\r\nError: Error finding tunnel",
        EdgeResponse::TunnelRefused => "HTTP/1.1 500\r\nContent-Length: 32\r\n\r\nTunnel says: connection refused.",
        EdgeResponse::ErrorProxyingTunnel => "HTTP/1.1 500\r\nContent-Length: 28\r\n\r\nError: Error proxying tunnel",
        EdgeResponse::HealthOk => "HTTP/1.1 200 OK\r\nContent-Length: 2\r\n\r\nok",
    };
    let b: &[u8] = text.as_bytes();
    crate::codec::copy_range(b, 0, b.len())
}

/// Where the edge's public-to-client pump stands.
#[derive(Debug, Clone, Copy, PartialEq, Eq, Structural)]
pub enum EdgeReadState {
    /// Bytes are still flowing.
    Streaming,
    /// The pump has ended; no further frames are emitted.
    Done,
}

/// What the public-to-client pump observes on one turn.
pub enum EdgeReadEvent {
    /// The stream's client left the registry.
    ClientGone,
    /// Bytes read from the public socket.
    Chunk(Vec<u8>),
    /// The public socket failed.
    ReadError,
    /// The public socket reached end of file.
    PublicEof,
}

/// What the public-to-client pump does on one turn.
pub enum EdgeReadAction {
    /// Tell the stream's writer no client serves it, close its
    /// channel, and stop.
    NotifyNoClient,
    /// Send these bytes to the client as a data frame.
    Forward(ControlPacket),
    /// Tell the client the public side ended, and stop.
    SendEnd(ControlPacket),
    /// Stop without telling anyone.
    Stop,
}

/// The mathematical shape of a pump observation.
pub enum EdgeReadEventModel {
    ClientGone,
    Chunk(Seq<u8>),
    ReadError,
    PublicEof,
}

impl View for EdgeReadEvent {
    type V = EdgeReadEventModel;

    open spec fn view(&self) -> EdgeReadEventModel {
        match self {
            EdgeReadEvent::ClientGone => EdgeReadEventModel::ClientGone,
            EdgeReadEvent::Chunk(d) => EdgeReadEventModel::Chunk(d@),
            EdgeReadEvent::ReadError => EdgeReadEventModel::ReadError,
            EdgeReadEvent::PublicEof => EdgeReadEventModel::PublicEof,
        }
    }
}

/// The mathematical shape of a pump action.
pub enum EdgeReadActionModel {
    NotifyNoClient,
    Forward(u64, Seq<u8>),
    SendEnd(u64),
    Stop,
}

/// One turn of the public-to-client pump, as a function: bytes are
/// forwarded while streaming; the end of the public socket sends the
/// end-of-stream frame exactly at the moment the pump finishes; every
/// other event just finishes it.
pub open spec fn spec_edge_read_step(
    state: EdgeReadState,
    event: EdgeReadEventModel,
    sid: u64,
) -> (EdgeReadState, EdgeReadActionModel) {
    match state {
        EdgeReadState::Done => (EdgeReadState::Done, EdgeReadActionModel::Stop),
        EdgeReadState::Streaming => match event {
            EdgeReadEventModel::ClientGone => (
                EdgeReadState::Done,
                EdgeReadActionModel::NotifyNoClient,
            ),
            EdgeReadEventModel::Chunk(d) => (
                EdgeReadState::Streaming,
                EdgeReadActionModel::Forward(sid, d),
            ),
            EdgeReadEventModel::ReadError => (EdgeReadState::Done, EdgeReadActionModel::Stop),
            EdgeReadEventModel::PublicEof => (EdgeReadState::Done, EdgeReadActionModel::SendEnd(sid)),
        },
    }
}

/// One turn of the public-to-client pump.
pub fn edge_read_step(state: EdgeReadState, event: EdgeReadEvent, sid: StreamId) -> (r: (
    EdgeReadState,
    EdgeReadAction,
))
    ensures
        r.0 == spec_edge_read_step(state, event@, sid.id).0,
        action_model(r.1) == spec_edge_read_step(state, event@, sid.id).1,
{
    match state {
        EdgeReadState::Done => (EdgeReadState::Done, EdgeReadAction::Stop),
        EdgeReadState::Streaming => match event {
            EdgeReadEvent::ClientGone => (EdgeReadState::Done, EdgeReadAction::NotifyNoClient),
            EdgeReadEvent::Chunk(d) => (
                EdgeReadState::Streaming,
                EdgeReadAction::Forward(ControlPacket::Data(sid, d)),
            ),
            EdgeReadEvent::ReadError => (EdgeReadState::Done, EdgeReadAction::Stop),
            EdgeReadEvent::PublicEof => (
                EdgeReadState::Done,
                EdgeReadAction::SendEnd(ControlPacket::End(sid)),
            ),
        },
    }
}

/// The model of a pump action; an action that carries a frame other
/// than a data or end frame has no model and cannot arise.
pub open spec fn action_model(a: EdgeReadAction) -> EdgeReadActionModel {
    match a {
        EdgeReadAction::NotifyNoClient => EdgeReadActionModel::NotifyNoClient,
        EdgeReadAction::Forward(p) => match p@ {
            crate::codec::PacketModel::Data(sid, d) => EdgeReadActionModel::Forward(sid, d),
            _ => EdgeReadActionModel::Stop,
        },
        EdgeReadAction::SendEnd(p) => match p@ {
            crate::codec::PacketModel::End(sid) => EdgeReadActionModel::SendEnd(sid),
            _ => EdgeReadActionModel::Stop,
        },
        EdgeReadAction::Stop => EdgeReadActionModel::Stop,
    }
}

/// The actions of a whole run of the pump over a sequence of events.
pub open spec fn spec_edge_read_run(
    state: EdgeReadState,
    events: Seq<EdgeReadEventModel>,
    sid: u64,
) -> Seq<EdgeReadActionModel>
    decreases events.len(),
{
    if events.len() == 0 {
        Seq::empty()
    } else {
        let step = spec_edge_read_step(state, events[0], sid);
        seq![step.1] + spec_edge_read_run(step.0, events.drop_first(), sid)
    }
}

/// How many end-of-stream frames a run emits.
pub open spec fn spec_count_ends(actions: Seq<EdgeReadActionModel>) -> nat
    decreases actions.len(),
{
    if actions.len() == 0 {
        0
    } else {
        (if actions[0] is SendEnd {
            1nat
        } else {
            0nat
        }) + spec_count_ends(actions.drop_first())
    }
}

/// A finished pump never emits an end-of-stream frame again.
pub proof fn lemma_done_emits_nothing(events: Seq<EdgeReadEventModel>, sid: u64)
    ensures
        spec_count_ends(spec_edge_read_run(EdgeReadState::Done, events, sid)) == 0,
    decreases events.len(),
{
    if events.len() > 0 {
        lemma_done_emits_nothing(events.drop_first(), sid);
        assert(spec_edge_read_run(EdgeReadState::Done, events, sid).drop_first()
            =~= spec_edge_read_run(EdgeReadState::Done, events.drop_first(), sid));
    }
}

/// Over any run of the pump, the end-of-stream frame is sent at most
/// once.
pub proof fn lemma_end_sent_at_most_once(events: Seq<EdgeReadEventModel>, sid: u64)
    ensures
        spec_count_ends(spec_edge_read_run(EdgeReadState::Streaming, events, sid)) <= 1,
    decreases events.len(),
{
    if events.len() > 0 {
        let step = spec_edge_read_step(EdgeReadState::Streaming, events[0], sid);
        let run = spec_edge_read_run(EdgeReadState::Streaming, events, sid);
        assert(run.drop_first() =~= spec_edge_read_run(step.0, events.drop_first(), sid));
        if step.0 is Done {
            lemma_done_emits_nothing(events.drop_first(), sid);
        } else {
            lemma_end_sent_at_most_once(events.drop_first(), sid);
        }
    }
}

/// A run in which the public socket ends after clean traffic sends
/// the end-of-stream frame exactly once.
pub proof fn lemma_end_sent_on_eof(events: Seq<EdgeReadEventModel>, sid: u64, k: int)
    requires
        0 <= k < events.len(),
        events[k] is PublicEof,
        forall|j: int| 0 <= j < k ==> (#[trigger] events[j]) is Chunk,
    ensures
        spec_count_ends(spec_edge_read_run(EdgeReadState::Streaming, events, sid)) == 1,
    decreases k,
{
    let run = spec_edge_read_run(EdgeReadState::Streaming, events, sid);
    let step = spec_edge_read_step(EdgeReadState::Streaming, events[0], sid);
    assert(run.drop_first() =~= spec_edge_read_run(step.0, events.drop_first(), sid));
    if k == 0 {
        lemma_done_emits_nothing(events.drop_first(), sid);
    } else {
        assert(events[0] is Chunk);
        assert forall|j: int| 0 <= j < k - 1 implies (#[trigger] events.drop_first()[j]) is Chunk by {
            assert(events.drop_first()[j] == events[j + 1]);
        }
        assert(events.drop_first()[k - 1] == events[k]);
        lemma_end_sent_on_eof(events.drop_first(), sid, k - 1);
    }
}

/// Where the edge's client-to-public pump stands.
#[derive(Debug, Clone, Copy, PartialEq, Eq, Structural)]
pub enum TunnelWriteState {
    /// Messages are still flowing.
    Streaming,
    /// The pump has ended: the socket is shut down and the stream is
    /// dropped from the table.
    Done,
}

/// What the client-to-public pump does on one turn.
pub enum TunnelWriteAction {
    /// Write these bytes to the public socket.
    Write(Vec<u8>),
    /// Write the refused response, shut down, and drop the stream.
    RespondRefused,
    /// Write the not-found response, shut down, and drop the stream.
    RespondNotFound,
    /// Shut down and drop the stream.
    Close,
}

/// One turn of the client-to-public pump: data is written through;
/// a refusal or a missing client answers with the fixed response and
/// finishes; a closed queue just finishes.  Whenever the pump
/// finishes, the stream leaves the table.
pub fn tunnel_write_step(
    state: TunnelWriteState,
    message: Option<crate::active_stream::StreamMessage>,
) -> (r: (TunnelWriteState, TunnelWriteAction))
    ensures
        state is Done ==> r.0 is Done && r.1 is Close,
        state is Streaming ==> match message {
            Some(m) => match m {
                crate::active_stream::StreamMessage::Data(_) => r.0 is Streaming && (r.1 matches
                    TunnelWriteAction::Write(d) && Some(
                    crate::active_stream::StreamMessage::Data(d),
                ) == message),
                crate::active_stream::StreamMessage::TunnelRefused => r.0 is Done
                    && r.1 is RespondRefused,
                crate::active_stream::StreamMessage::NoClientTunnel => r.0 is Done
                    && r.1 is RespondNotFound,
            },
            None => r.0 is Done && r.1 is Close,
        },
{
    match state {
        TunnelWriteState::Done => (TunnelWriteState::Done, TunnelWriteAction::Close),
        TunnelWriteState::Streaming => match message {
            Some(crate::active_stream::StreamMessage::Data(d)) => (
                TunnelWriteState::Streaming,
                TunnelWriteAction::Write(d),
            ),
            Some(crate::active_stream::StreamMessage::TunnelRefused) => (
                TunnelWriteState::Done,
                TunnelWriteAction::RespondRefused,
            ),
            Some(crate::active_stream::StreamMessage::NoClientTunnel) => (
                TunnelWriteState::Done,
                TunnelWriteAction::RespondNotFound,
            ),
            None => (TunnelWriteState::Done, TunnelWriteAction::Close),
        },
    }
}

/// The extra hop recorded by a forwarding proxy, if the head names
/// one.
pub fn forwarded_for(head: &RequestHead) -> (r: Option<Vec<u8>>)
    ensures
        match r {
            Some(v) => Some(v@) == spec_find_header(h_model(head), encode_utf8(
                "x-forwarded-for"@,
            )),
            None => spec_find_header(h_model(head), encode_utf8("x-forwarded-for"@)) is None,
        },
{
    let name: &str = "x-forwarded-for";
    proof {
        reveal_strlit("x-forwarded-for");
    }
    find_header(&head.headers, name.as_bytes())
}

/// The header models of a parsed head.
pub open spec fn h_model(head: &RequestHead) -> Seq<crate::httphead::HeaderModel> {
    head.headers@.map_values(|f: crate::httphead::HeaderField| f@)
}

} // verus!

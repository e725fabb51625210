//! Stream lifecycle: the active-stream table, the edge's two pump
//! rules, and the routing of frames a client sends back.
use tunnelto::active_stream::{ActiveStream, ActiveStreams, StreamMessage};
use tunnelto::codec::{ControlPacket, StreamId};
use tunnelto::control_server::{handle_client_packet, send_client_stream_init,
    ClientPacketAction};
use tunnelto::ids::ClientId;
use tunnelto::registry::{ConnectedClient, Connections};
use tunnelto::remote::{edge_read_step, tunnel_write_step, EdgeReadAction, EdgeReadEvent,
    EdgeReadState, TunnelWriteAction, TunnelWriteState};

fn client(id: &str, host: &str) -> ConnectedClient {
    let (tx, _rx) = futures::channel::mpsc::unbounded::<ControlPacket>();
    ConnectedClient {
        id: ClientId::from_text(id.to_string()),
        host: host.to_string(),
        is_anonymous: false,
        tx,
    }
}

#[test]
fn table_insert_get_remove() {
    let mut streams = ActiveStreams::new();
    let (stream, _rx) = ActiveStream::new(client("c1", "my-app"));
    let sid = stream.id;
    streams.insert(stream);
    assert_eq!(streams.len(), 1);
    let found = streams.get(&sid).expect("registered stream");
    assert_eq!(found.client.host, "my-app");
    streams.remove(&sid);
    assert!(streams.get(&sid).is_none());
    assert_eq!(streams.len(), 0);
}

#[test]
fn eof_sends_end_exactly_once() {
    let sid = StreamId::from_value(9);
    let (state, action) = edge_read_step(EdgeReadState::Streaming, EdgeReadEvent::PublicEof, sid);
    match action {
        EdgeReadAction::SendEnd(ControlPacket::End(s)) => assert_eq!(s.value(), 9),
        _ => panic!("the public end of file must send the end frame"),
    }
    // Once finished, no further event emits anything.
    let (state2, action2) = edge_read_step(state, EdgeReadEvent::PublicEof, sid);
    assert!(matches!(action2, EdgeReadAction::Stop));
    let (_, action3) = edge_read_step(state2, EdgeReadEvent::Chunk(vec![1]), sid);
    assert!(matches!(action3, EdgeReadAction::Stop));
}

#[test]
fn chunks_forward_while_streaming() {
    let sid = StreamId::from_value(5);
    let (state, action) = edge_read_step(
        EdgeReadState::Streaming,
        EdgeReadEvent::Chunk(vec![1, 2, 3]),
        sid,
    );
    assert!(matches!(state, EdgeReadState::Streaming));
    match action {
        EdgeReadAction::Forward(ControlPacket::Data(s, d)) => {
            assert_eq!(s.value(), 5);
            assert_eq!(d, vec![1, 2, 3]);
        }
        _ => panic!("a chunk must be forwarded as a data frame"),
    }
}

#[test]
fn lost_client_notifies_and_stops() {
    let sid = StreamId::from_value(5);
    let (state, action) = edge_read_step(EdgeReadState::Streaming, EdgeReadEvent::ClientGone, sid);
    assert!(matches!(state, EdgeReadState::Done));
    assert!(matches!(action, EdgeReadAction::NotifyNoClient));
}

#[test]
fn writer_pump_answers_and_finishes() {
    let (s1, a1) = tunnel_write_step(
        TunnelWriteState::Streaming,
        Some(StreamMessage::Data(vec![7, 8])),
    );
    assert!(matches!(s1, TunnelWriteState::Streaming));
    match a1 {
        TunnelWriteAction::Write(d) => assert_eq!(d, vec![7, 8]),
        _ => panic!("data must be written through"),
    }
    let (s2, a2) = tunnel_write_step(TunnelWriteState::Streaming, Some(StreamMessage::TunnelRefused));
    assert!(matches!(s2, TunnelWriteState::Done));
    assert!(matches!(a2, TunnelWriteAction::RespondRefused));
    let (s3, a3) = tunnel_write_step(TunnelWriteState::Streaming, Some(StreamMessage::NoClientTunnel));
    assert!(matches!(s3, TunnelWriteState::Done));
    assert!(matches!(a3, TunnelWriteAction::RespondNotFound));
    let (s4, a4) = tunnel_write_step(TunnelWriteState::Streaming, None);
    assert!(matches!(s4, TunnelWriteState::Done));
    assert!(matches!(a4, TunnelWriteAction::Close));
}

#[test]
fn client_frames_route_by_kind() {
    let mut conns = Connections::new();
    let c = client("c1", "my-app");
    let streams = ActiveStreams::new();
    let sid = StreamId::from_value(3);
    match handle_client_packet(
        ControlPacket::Data(sid, vec![1]),
        &streams,
        &mut conns,
        &c,
    ) {
        ClientPacketAction::ForwardData(s, d) => {
            assert_eq!(s.value(), 3);
            assert_eq!(d, vec![1]);
        }
        _ => panic!("data must forward"),
    }
    assert!(matches!(
        handle_client_packet(ControlPacket::Refused(sid), &streams, &mut conns, &c),
        ClientPacketAction::ForwardRefused(_)
    ));
    assert!(matches!(
        handle_client_packet(ControlPacket::Init(sid), &streams, &mut conns, &c),
        ClientPacketAction::ProtocolViolation
    ));
    assert!(matches!(
        handle_client_packet(ControlPacket::End(sid), &streams, &mut conns, &c),
        ClientPacketAction::ProtocolViolation
    ));
    assert!(matches!(
        handle_client_packet(ControlPacket::Ping(None), &streams, &mut conns, &c),
        ClientPacketAction::Refresh
    ));
    // The ping re-registered the client.
    assert!(conns.find_by_host(&"my-app".to_string()).is_some());
}

#[test]
fn payload_bytes_survive_the_whole_splice() {
    // Public bytes read at the edge travel as one data frame over the
    // wire and come out of the client dispatcher unchanged.
    let payload = b"GET /ping HTTP/1.1\r\nHost: abcd1234.tunnelto.dev\r\n\r\n".to_vec();
    let sid = StreamId::from_value(77);
    let (_, action) = edge_read_step(
        EdgeReadState::Streaming,
        EdgeReadEvent::Chunk(payload.clone()),
        sid,
    );
    let frame = match action {
        EdgeReadAction::Forward(packet) => packet.serialize(),
        _ => panic!("a chunk must be forwarded"),
    };
    let packet = ControlPacket::deserialize(&frame).expect("the wire frame parses");
    let senders = tunnelto::local::StreamSenders::new();
    let (tx, _rx) = futures::channel::mpsc::unbounded::<ControlPacket>();
    let mut stored = None;
    match tunnelto::client::client_handle_packet(packet, &senders, &tx, &mut stored) {
        tunnelto::client::ClientAction::OpenLocal(s, d) => {
            assert_eq!(s.value(), 77);
            assert_eq!(d, payload);
        }
        _ => panic!("an unknown stream must ask for a local dial"),
    }
}

#[test]
fn stream_init_reaches_a_live_client() {
    let mut conns = Connections::new();
    let (tx, mut rx) = futures::channel::mpsc::unbounded::<ControlPacket>();
    let c = ConnectedClient {
        id: ClientId::from_text("c1".to_string()),
        host: "my-app".to_string(),
        is_anonymous: false,
        tx,
    };
    conns.add(c.clone());
    let (stream, _srx) = ActiveStream::new(c);
    let sid = stream.id;
    assert!(send_client_stream_init(&stream, &mut conns));
    match rx.try_next().expect("a frame is queued").expect("the channel is open") {
        ControlPacket::Init(s) => assert_eq!(s.value(), sid.value()),
        _ => panic!("the queued frame must be the stream-open notice"),
    }
    // The client stays registered after a delivered init.
    assert!(conns.find_by_host(&"my-app".to_string()).is_some());
}

#[test]
fn stream_init_to_a_dead_client_releases_it() {
    let mut conns = Connections::new();
    let (tx, rx) = futures::channel::mpsc::unbounded::<ControlPacket>();
    drop(rx);
    let c = ConnectedClient {
        id: ClientId::from_text("c1".to_string()),
        host: "my-app".to_string(),
        is_anonymous: false,
        tx,
    };
    conns.add(c.clone());
    let (stream, _srx) = ActiveStream::new(c);
    assert!(!send_client_stream_init(&stream, &mut conns));
    assert!(conns.find_by_host(&"my-app".to_string()).is_none());
}

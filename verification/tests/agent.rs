//! Client agent behavior: the dispatcher, the hello choice, the reply
//! outcome, and the local stream table.
use tunnelto::client::{client_hello_for_config, client_handle_packet, refuse_stream,
    server_hello_outcome, ClientAction};
use tunnelto::codec::{ControlPacket, ReconnectToken, StreamId};
use tunnelto::error::Error;
use tunnelto::hello::{ClientHello, ClientType, ServerHello};
use tunnelto::ids::{ClientId, SecretKey};
use tunnelto::local::{StreamMessage, StreamSenders};

#[test]
fn ping_stores_the_token_and_pongs() {
    let streams = StreamSenders::new();
    let (tx, mut rx) = futures::channel::mpsc::unbounded::<ControlPacket>();
    let mut stored: Option<ReconnectToken> = None;
    let action = client_handle_packet(
        ControlPacket::Ping(Some(ReconnectToken("tok".to_string()))),
        &streams,
        &tx,
        &mut stored,
    );
    assert!(matches!(action, ClientAction::Pong));
    assert_eq!(stored.expect("the token is stored").0, "tok");
    match rx.try_next().expect("a frame is queued").expect("the channel is open") {
        ControlPacket::Ping(None) => {}
        _ => panic!("the pong must be a bare ping"),
    }
}

#[test]
fn bare_ping_keeps_the_stored_token() {
    let streams = StreamSenders::new();
    let (tx, _rx) = futures::channel::mpsc::unbounded::<ControlPacket>();
    let mut stored = Some(ReconnectToken("old".to_string()));
    let action = client_handle_packet(ControlPacket::Ping(None), &streams, &tx, &mut stored);
    assert!(matches!(action, ClientAction::Pong));
    assert_eq!(stored.expect("kept").0, "old");
}

#[test]
fn data_for_an_unknown_stream_asks_for_a_dial() {
    let streams = StreamSenders::new();
    let (tx, _rx) = futures::channel::mpsc::unbounded::<ControlPacket>();
    let mut stored: Option<ReconnectToken> = None;
    let sid = StreamId::from_value(11);
    match client_handle_packet(ControlPacket::Data(sid, vec![1, 2]), &streams, &tx, &mut stored) {
        ClientAction::OpenLocal(s, d) => {
            assert_eq!(s.value(), 11);
            assert_eq!(d, vec![1, 2]);
        }
        _ => panic!("an unknown stream must ask for a local dial"),
    }
}

#[test]
fn data_for_a_live_stream_is_forwarded() {
    let mut streams = StreamSenders::new();
    let sid = StreamId::from_value(11);
    let (stx, mut srx) = futures::channel::mpsc::unbounded::<StreamMessage>();
    streams.insert(sid, stx);
    let (tx, _rx) = futures::channel::mpsc::unbounded::<ControlPacket>();
    let mut stored: Option<ReconnectToken> = None;
    match client_handle_packet(ControlPacket::Data(sid, vec![9]), &streams, &tx, &mut stored) {
        ClientAction::Forwarded(s) => assert_eq!(s.value(), 11),
        _ => panic!("a live stream must take the data"),
    }
    match srx.try_next().expect("a message is queued").expect("the channel is open") {
        StreamMessage::Data(d) => assert_eq!(d, vec![9]),
        _ => panic!("the queued message must carry the bytes"),
    }
}

#[test]
fn end_schedules_a_close_and_refused_is_illegal() {
    let streams = StreamSenders::new();
    let (tx, _rx) = futures::channel::mpsc::unbounded::<ControlPacket>();
    let mut stored: Option<ReconnectToken> = None;
    let sid = StreamId::from_value(4);
    assert!(matches!(
        client_handle_packet(ControlPacket::End(sid), &streams, &tx, &mut stored),
        ClientAction::ScheduleClose(_)
    ));
    assert!(matches!(
        client_handle_packet(ControlPacket::Refused(sid), &streams, &tx, &mut stored),
        ClientAction::ProtocolError
    ));
    assert!(matches!(
        client_handle_packet(ControlPacket::Init(sid), &streams, &tx, &mut stored),
        ClientAction::LogInit(_)
    ));
}

#[test]
fn close_stream_tells_the_writer_and_forgets_the_id() {
    let mut streams = StreamSenders::new();
    let sid = StreamId::from_value(4);
    let (stx, mut srx) = futures::channel::mpsc::unbounded::<StreamMessage>();
    streams.insert(sid, stx);
    streams.close_stream(&sid);
    assert!(!streams.contains(&sid));
    match srx.try_next().expect("a message is queued").expect("the channel is open") {
        StreamMessage::Close => {}
        _ => panic!("the writer must be told to close"),
    }
}

#[test]
fn refusal_reaches_the_tunnel() {
    let (tx, mut rx) = futures::channel::mpsc::unbounded::<ControlPacket>();
    assert!(refuse_stream(&tx, StreamId::from_value(2)));
    match rx.try_next().expect("a frame is queued").expect("the channel is open") {
        ControlPacket::Refused(s) => assert_eq!(s.value(), 2),
        _ => panic!("the queued frame must be the refusal"),
    }
}

#[test]
fn reply_outcomes_map_to_errors() {
    let ok = server_hello_outcome(ServerHello::Success {
        sub_domain: "abcd1234".to_string(),
        hostname: "abcd1234.tunnelto.dev".to_string(),
        client_id: ClientId::from_text("c".to_string()),
    })
    .expect("success carries the binding");
    assert_eq!(ok.0, "abcd1234");
    assert_eq!(ok.1, "abcd1234.tunnelto.dev");
    assert!(matches!(
        server_hello_outcome(ServerHello::AuthFailed),
        Err(Error::AuthenticationFailed)
    ));
    assert!(matches!(
        server_hello_outcome(ServerHello::InvalidSubDomain),
        Err(Error::InvalidSubDomain)
    ));
    assert!(matches!(
        server_hello_outcome(ServerHello::SubDomainInUse),
        Err(Error::SubDomainInUse)
    ));
    match server_hello_outcome(ServerHello::Error("boom".to_string())) {
        Err(Error::ServerError(m)) => assert_eq!(m, "boom"),
        _ => panic!("a server error must carry its text"),
    }
}

#[test]
fn hello_choice_follows_the_configuration() {
    let with_key = client_hello_for_config(
        Some(SecretKey("k1".to_string())),
        Some("my-app".to_string()),
        &None,
    );
    assert!(matches!(with_key.client_type, ClientType::Auth { .. }));
    assert_eq!(with_key.sub_domain.as_deref(), Some("my-app"));
    assert!(with_key.reconnect_token.is_none());

    let stored = Some(ReconnectToken("tok".to_string()));
    let reconnect = client_hello_for_config(None, Some("ignored".to_string()), &stored);
    assert!(matches!(reconnect.client_type, ClientType::Anonymous));
    assert!(reconnect.sub_domain.is_none());
    assert_eq!(reconnect.reconnect_token.expect("token presented").0, "tok");

    let anonymous = client_hello_for_config(None, None, &None);
    assert!(matches!(anonymous.client_type, ClientType::Anonymous));
    assert!(anonymous.reconnect_token.is_none());
}

#[test]
fn generated_hellos_carry_their_kind() {
    let auth = ClientHello::generate(
        Some("wish".to_string()),
        ClientType::Auth { key: SecretKey("k".to_string()) },
    );
    assert!(matches!(auth.client_type, ClientType::Auth { .. }));
    assert_eq!(auth.sub_domain.as_deref(), Some("wish"));
    assert!(auth.reconnect_token.is_none());
    let reconnect = ClientHello::reconnect(ReconnectToken("tok".to_string()));
    assert!(matches!(reconnect.client_type, ClientType::Anonymous));
    assert!(reconnect.sub_domain.is_none());
    assert_eq!(reconnect.reconnect_token.expect("token kept").0, "tok");
}

#[test]
fn retryable_errors_are_the_transport_kinds() {
    assert!(Error::Timeout.is_retryable());
    assert!(Error::NoResponseFromServer.is_retryable());
    assert!(Error::WebSocketError("x".to_string()).is_retryable());
    assert!(!Error::AuthenticationFailed.is_retryable());
    assert!(!Error::SubDomainInUse.is_retryable());
}

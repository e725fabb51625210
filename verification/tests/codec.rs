//! Wire codec behavior: framing round trips, short-frame rejection,
//! and stream-id material.
use std::collections::HashSet;
use tunnelto::codec::{CodecError, ControlPacket, ReconnectToken, StreamId};

fn round_trip(packet: ControlPacket) -> ControlPacket {
    let bytes = packet.serialize();
    ControlPacket::deserialize(&bytes).expect("serialized frame must parse")
}

#[test]
fn round_trip_init() {
    let sid = StreamId::from_value(0x1122_3344_5566_7788);
    match round_trip(ControlPacket::Init(sid)) {
        ControlPacket::Init(s) => assert_eq!(s.value(), 0x1122_3344_5566_7788),
        other => panic!("wrong frame kind: {:?}", other),
    }
}

#[test]
fn round_trip_data() {
    let sid = StreamId::from_value(7);
    let payload = vec![0u8, 1, 2, 3, 255, 254];
    match round_trip(ControlPacket::Data(sid, payload.clone())) {
        ControlPacket::Data(s, d) => {
            assert_eq!(s.value(), 7);
            assert_eq!(d, payload);
        }
        other => panic!("wrong frame kind: {:?}", other),
    }
}

#[test]
fn round_trip_refused_and_end() {
    let sid = StreamId::from_value(u64::MAX);
    match round_trip(ControlPacket::Refused(sid)) {
        ControlPacket::Refused(s) => assert_eq!(s.value(), u64::MAX),
        other => panic!("wrong frame kind: {:?}", other),
    }
    match round_trip(ControlPacket::End(sid)) {
        ControlPacket::End(s) => assert_eq!(s.value(), u64::MAX),
        other => panic!("wrong frame kind: {:?}", other),
    }
}

#[test]
fn round_trip_bare_ping() {
    match round_trip(ControlPacket::Ping(None)) {
        ControlPacket::Ping(None) => {}
        other => panic!("wrong frame kind: {:?}", other),
    }
}

#[test]
fn round_trip_ping_keeps_token_text() {
    let token = ReconnectToken("abc DEF 123 =/+".to_string());
    match round_trip(ControlPacket::Ping(Some(token))) {
        ControlPacket::Ping(Some(t)) => assert_eq!(t.0, "abc DEF 123 =/+"),
        other => panic!("wrong frame kind: {:?}", other),
    }
}

#[test]
fn serialized_layout_is_tag_id_payload() {
    let sid = StreamId::from_value(0x0102_0304_0506_0708);
    let bytes = ControlPacket::Data(sid, vec![0xaa, 0xbb]).serialize();
    assert_eq!(
        bytes,
        vec![0x02, 0x01, 0x02, 0x03, 0x04, 0x05, 0x06, 0x07, 0x08, 0xaa, 0xbb]
    );
}

#[test]
fn short_frames_always_error() {
    for len in 0..9usize {
        let bytes = vec![0x02u8; len];
        match ControlPacket::deserialize(&bytes) {
            Err(CodecError::TooShort) => {}
            other => panic!("short frame of {} bytes must be rejected, got {:?}", len, other),
        }
    }
}

#[test]
fn unknown_tag_errors() {
    let mut bytes = vec![0x09u8];
    bytes.extend_from_slice(&[0u8; 8]);
    match ControlPacket::deserialize(&bytes) {
        Err(CodecError::UnknownTag) => {}
        other => panic!("unknown tag must be rejected, got {:?}", other),
    }
}

#[test]
fn non_utf8_token_ping_reads_with_replacement_characters() {
    let mut bytes = vec![0x05u8];
    bytes.extend_from_slice(&[0x0f, 0, 0, 0, 0, 0, 0, 1]);
    bytes.extend_from_slice(&[0x61, 0xff, 0x62]);
    match ControlPacket::deserialize(&bytes) {
        Ok(ControlPacket::Ping(Some(t))) => assert_eq!(t.0, "a\u{FFFD}b"),
        other => panic!("a token ping must parse leniently, got {:?}", other),
    }
}

#[test]
fn nine_byte_frame_parses() {
    let mut bytes = vec![0x01u8];
    bytes.extend_from_slice(&[9u8; 8]);
    assert!(ControlPacket::deserialize(&bytes).is_ok());
}

#[test]
fn stream_id_text_is_prefixed() {
    let sid = StreamId::from_value(42);
    let text = sid.to_string();
    assert!(text.starts_with("stream_"));
}

#[test]
fn stream_ids_do_not_collide() {
    let mut seen: HashSet<u64> = HashSet::with_capacity(1_000_000);
    for _ in 0..1_000_000 {
        let sid = StreamId::generate();
        assert!(seen.insert(sid.value()), "stream id collision");
    }
}

#[test]
fn packet_type_names() {
    let sid = StreamId::from_value(1);
    assert_eq!(ControlPacket::Ping(None).packet_type(), "PING");
    assert_eq!(ControlPacket::Init(sid).packet_type(), "INIT STREAM");
    assert_eq!(ControlPacket::Data(sid, vec![]).packet_type(), "STREAM DATA");
    assert_eq!(ControlPacket::Refused(sid).packet_type(), "REFUSED");
    assert_eq!(ControlPacket::End(sid).packet_type(), "END STREAM");
}

//! The binary control-frame codec spoken over the control WebSocket:
//! one tag byte, an eight-byte stream identifier, and an optional
//! payload.  Serialization is deterministic and concatenative, and
//! deserialization is proved to invert it.
use crate::random::random_u64;
use vstd::prelude::*;
use vstd::string::StringExecFns;

verus! {

/// The stream identifier reserved for a bare keep-alive ping.
pub const EMPTY_STREAM_ID: u64 = 0x0f00_0000_0000_0000;

/// The stream identifier reserved for a ping that carries a reconnect
/// token payload.
pub const TOKEN_STREAM_ID: u64 = 0x0f00_0000_0000_0001;

/// Identifies one multiplexed public connection; eight random bytes,
/// carried here as one 64-bit value in big-endian byte order.
#[derive(Debug, Clone, Copy, PartialEq, Eq, Hash, Structural)]
pub struct StreamId {
    pub id: u64,
}

/// The big-endian bytes of a 64-bit value.
pub open spec fn spec_u64_bytes(x: u64) -> Seq<u8> {
    seq![
        (x >> 56) as u8,
        (x >> 48) as u8,
        (x >> 40) as u8,
        (x >> 32) as u8,
        (x >> 24) as u8,
        (x >> 16) as u8,
        (x >> 8) as u8,
        x as u8,
    ]
}

/// The 64-bit value read from eight big-endian bytes.
pub open spec fn spec_bytes_u64(b: Seq<u8>) -> u64
    recommends
        b.len() == 8,
{
    (
    ((b[0] as u64) << 56) | ((b[1] as u64) << 48) | ((b[2] as u64) << 40) | ((b[3] as u64) << 32)
        | ((b[4] as u64) << 24) | ((b[5] as u64) << 16) | ((b[6] as u64) << 8) | (b[7] as u64)
    ) as u64
}

/// Reading back the big-endian bytes of a value gives the value.
pub proof fn lemma_u64_bytes_round_trip(x: u64)
    ensures
        spec_bytes_u64(spec_u64_bytes(x)) == x,
{
    let b0 = (x >> 56) as u8;
    let b1 = (x >> 48) as u8;
    let b2 = (x >> 40) as u8;
    let b3 = (x >> 32) as u8;
    let b4 = (x >> 24) as u8;
    let b5 = (x >> 16) as u8;
    let b6 = (x >> 8) as u8;
    let b7 = x as u8;
    assert((((b0 as u64) << 56) | ((b1 as u64) << 48) | ((b2 as u64) << 40) | ((b3 as u64) << 32)
        | ((b4 as u64) << 24) | ((b5 as u64) << 16) | ((b6 as u64) << 8) | (b7 as u64)) == x)
        by (bit_vector)
        requires
            b0 == (x >> 56) as u8,
            b1 == (x >> 48) as u8,
            b2 == (x >> 40) as u8,
            b3 == (x >> 32) as u8,
            b4 == (x >> 24) as u8,
            b5 == (x >> 16) as u8,
            b6 == (x >> 8) as u8,
            b7 == x as u8,
    ;
}

/// Appends the eight big-endian bytes of a value.
pub fn push_u64_bytes(x: u64, out: &mut Vec<u8>)
    ensures
        final(out)@ == old(out)@ + spec_u64_bytes(x),
{
    out.push((x >> 56) as u8);
    out.push((x >> 48) as u8);
    out.push((x >> 40) as u8);
    out.push((x >> 32) as u8);
    out.push((x >> 24) as u8);
    out.push((x >> 16) as u8);
    out.push((x >> 8) as u8);
    out.push(x as u8);
    assert(final(out)@ =~= old(out)@ + spec_u64_bytes(x));
}

/// Reads a 64-bit big-endian value at an offset of a byte slice.
pub fn read_u64_be(data: &[u8], off: usize) -> (r: u64)
    requires
        off + 8 <= data@.len(),
    ensures
        r == spec_bytes_u64(data@.subrange(off as int, off + 8)),
{
    let r: u64 = ((data[off] as u64) << 56) | ((data[off + 1] as u64) << 48) | ((data[off
        + 2] as u64) << 40) | ((data[off + 3] as u64) << 32) | ((data[off + 4] as u64) << 24) | ((
    data[off + 5] as u64) << 16) | ((data[off + 6] as u64) << 8) | (data[off + 7] as u64);
    proof {
        let b = data@.subrange(off as int, off + 8);
        assert(b[0] == data@[off as int]);
        assert(b[1] == data@[off + 1]);
        assert(b[2] == data@[off + 2]);
        assert(b[3] == data@[off + 3]);
        assert(b[4] == data@[off + 4]);
        assert(b[5] == data@[off + 5]);
        assert(b[6] == data@[off + 6]);
        assert(b[7] == data@[off + 7]);
    }
    r
}

/// Copies `data[start..end]` into a fresh vector.
pub fn copy_range(data: &[u8], start: usize, end: usize) -> (r: Vec<u8>)
    requires
        start <= end <= data@.len(),
    ensures
        r@ == data@.subrange(start as int, end as int),
{
    let mut out: Vec<u8> = Vec::new();
    let mut i: usize = start;
    while i < end
        invariant
            start <= i <= end <= data@.len(),
            out@ == data@.subrange(start as int, i as int),
        decreases end - i,
    {
        out.push(data[i]);
        assert(out@ =~= data@.subrange(start as int, i + 1));
        i = i + 1;
    }
    out
}

impl StreamId {
    /// The raw 64-bit value of the identifier.
    pub open spec fn spec_value(&self) -> u64 {
        self.id
    }

    /// Draws a fresh random stream identifier.
    pub fn generate() -> StreamId {
        StreamId { id: random_u64() }
    }

    /// Wraps a raw 64-bit value as a stream identifier.
    pub fn from_value(id: u64) -> (r: StreamId)
        ensures
            r.id == id,
    {
        StreamId { id }
    }

    /// The raw 64-bit value of the identifier.
    pub fn value(&self) -> (r: u64)
        ensures
            r == self.id,
    {
        self.id
    }

    /// The identifier reserved for a bare ping.
    pub fn empty_stream() -> (r: StreamId)
        ensures
            r.id == EMPTY_STREAM_ID,
    {
        StreamId { id: EMPTY_STREAM_ID }
    }

    /// The identifier reserved for a token-carrying ping.
    pub fn token_stream() -> (r: StreamId)
        ensures
            r.id == TOKEN_STREAM_ID,
    {
        StreamId { id: TOKEN_STREAM_ID }
    }

    /// A printable name for the stream: a fixed prefix and the URL-safe
    /// base64 of the eight identifier bytes.
    pub fn to_string(&self) -> (r: String)
        ensures
            r@ == "stream_"@ + crate::crypto::base64_url_of(spec_u64_bytes(self.id)),
    {
        let mut bytes: Vec<u8> = Vec::new();
        push_u64_bytes(self.id, &mut bytes);
        let tail = crate::crypto::base64_url_encode(bytes.as_slice());
        let mut out = String::new();
        out.append("stream_");
        out.append(tail.as_str());
        out
    }
}

/// An opaque, HMAC-signed capability that lets a disconnected client
/// re-claim its subdomain; carried as printable text.
#[derive(Debug, Clone)]
pub struct ReconnectToken(pub String);

impl View for ReconnectToken {
    type V = Seq<char>;

    open spec fn view(&self) -> Seq<char> {
        self.0@
    }
}

/// One frame of the control protocol.
#[derive(Debug, Clone)]
pub enum ControlPacket {
    Init(StreamId),
    Data(StreamId, Vec<u8>),
    Refused(StreamId),
    End(StreamId),
    Ping(Option<ReconnectToken>),
}

/// The mathematical shape of a control frame: stream identifiers as
/// 64-bit values, payloads as byte sequences, tokens as text.
pub enum PacketModel {
    Init(u64),
    Data(u64, Seq<u8>),
    Refused(u64),
    End(u64),
    Ping(Option<Seq<char>>),
}

impl View for ControlPacket {
    type V = PacketModel;

    open spec fn view(&self) -> PacketModel {
        match self {
            ControlPacket::Init(sid) => PacketModel::Init(sid.id),
            ControlPacket::Data(sid, data) => PacketModel::Data(sid.id, data@),
            ControlPacket::Refused(sid) => PacketModel::Refused(sid.id),
            ControlPacket::End(sid) => PacketModel::End(sid.id),
            ControlPacket::Ping(tok) => PacketModel::Ping(
                match tok {
                    Some(t) => Some(t@),
                    None => None,
                },
            ),
        }
    }
}

/// Why a frame was rejected.
#[derive(Debug, Clone, Copy, PartialEq, Eq, Structural)]
pub enum CodecError {
    /// Fewer than nine bytes: no room for the tag and the stream id.
    TooShort,
    /// The leading tag byte names no known frame kind.
    UnknownTag,
}

/// The serialized bytes of a frame: tag, stream id, payload.
pub open spec fn spec_serialize(p: PacketModel) -> Seq<u8> {
    match p {
        PacketModel::Init(sid) => seq![0x01u8] + spec_u64_bytes(sid),
        PacketModel::Data(sid, data) => seq![0x02u8] + spec_u64_bytes(sid) + data,
        PacketModel::Refused(sid) => seq![0x03u8] + spec_u64_bytes(sid),
        PacketModel::End(sid) => seq![0x04u8] + spec_u64_bytes(sid),
        PacketModel::Ping(tok) => match tok {
            None => seq![0x05u8] + spec_u64_bytes(EMPTY_STREAM_ID),
            Some(t) => seq![0x05u8] + spec_u64_bytes(TOKEN_STREAM_ID) + vstd::utf8::encode_utf8(t),
        },
    }
}

/// The frame a byte sequence denotes, when it denotes one: at least
/// nine bytes, a known tag, and for a token ping the token text.
pub open spec fn spec_deserialize(b: Seq<u8>) -> Result<PacketModel, CodecError> {
    if b.len() < 9 {
        Err(CodecError::TooShort)
    } else {
        let sid = spec_bytes_u64(b.subrange(1, 9));
        if b[0] == 0x01 {
            Ok(PacketModel::Init(sid))
        } else if b[0] == 0x02 {
            Ok(PacketModel::Data(sid, b.skip(9)))
        } else if b[0] == 0x03 {
            Ok(PacketModel::Refused(sid))
        } else if b[0] == 0x04 {
            Ok(PacketModel::End(sid))
        } else if b[0] == 0x05 {
            if sid == EMPTY_STREAM_ID {
                Ok(PacketModel::Ping(None))
            } else {
                Ok(PacketModel::Ping(Some(vstd::utf8::decode_utf8(b.skip(9)))))
            }
        } else {
            Err(CodecError::UnknownTag)
        }
    }
}

/// Whether the bytes after the header of a token-carrying ping are
/// valid UTF-8; for every other frame this holds vacuously.
pub open spec fn spec_frame_utf8_ok(b: Seq<u8>) -> bool {
    (b.len() >= 9 && b[0] == 0x05 && spec_bytes_u64(b.subrange(1, 9)) != EMPTY_STREAM_ID)
        ==> vstd::utf8::valid_utf8(b.skip(9))
}

impl ControlPacket {
    /// Serializes the frame for the wire.
    pub fn serialize(self) -> (r: Vec<u8>)
        ensures
            r@ == spec_serialize(self@),
    {
        let mut out: Vec<u8> = Vec::new();
        match self {
            ControlPacket::Init(sid) => {
                out.push(0x01);
                push_u64_bytes(sid.id, &mut out);
            },
            ControlPacket::Data(sid, data) => {
                out.push(0x02);
                push_u64_bytes(sid.id, &mut out);
                crate::text::push_bytes(&mut out, data.as_slice());
                proof {
                    assert(out@ =~= spec_serialize(PacketModel::Data(sid.id, data@)));
                }
            },
            ControlPacket::Refused(sid) => {
                out.push(0x03);
                push_u64_bytes(sid.id, &mut out);
            },
            ControlPacket::End(sid) => {
                out.push(0x04);
                push_u64_bytes(sid.id, &mut out);
            },
            ControlPacket::Ping(tok) => {
                out.push(0x05);
                match tok {
                    None => {
                        push_u64_bytes(EMPTY_STREAM_ID, &mut out);
                    },
                    Some(t) => {
                        push_u64_bytes(TOKEN_STREAM_ID, &mut out);
                        crate::text::push_bytes(&mut out, t.0.as_str().as_bytes());
                        proof {
                            assert(out@ =~= spec_serialize(PacketModel::Ping(Some(t@))));
                        }
                    },
                }
            },
        }
        assert(out@ =~= spec_serialize(self@));
        out
    }

    /// A short name for the frame kind, for logs.
    pub fn packet_type(&self) -> &str {
        match self {
            ControlPacket::Ping(_) => "PING",
            ControlPacket::Init(_) => "INIT STREAM",
            ControlPacket::Data(_, _) => "STREAM DATA",
            ControlPacket::Refused(_) => "REFUSED",
            ControlPacket::End(_) => "END STREAM",
        }
    }

    /// Parses a frame from the wire.  Fails exactly on short frames and
    /// unknown tags; a token-carrying ping whose payload is not UTF-8
    /// is read with the usual replacement characters.
    pub fn deserialize(data: &[u8]) -> (r: Result<ControlPacket, CodecError>)
        ensures
            r is Ok <==> spec_deserialize(data@) is Ok,
            r is Err ==> spec_deserialize(data@) == Result::<PacketModel, CodecError>::Err(
                r->Err_0,
            ),
            (r is Ok && spec_frame_utf8_ok(data@)) ==> r->Ok_0@ == spec_deserialize(data@)->Ok_0,
            (data@.len() >= 9 && data@[0] == 0x05 && spec_bytes_u64(data@.subrange(1, 9))
                != EMPTY_STREAM_ID) ==> r->Ok_0@ == PacketModel::Ping(
                Some(crate::text::lossy_of(data@.skip(9))),
            ),
    {
        if data.len() < 9 {
            return Err(CodecError::TooShort);
        }
        let sid_value: u64 = read_u64_be(data, 1);
        let sid = StreamId { id: sid_value };
        let tag: u8 = data[0];
        if tag == 0x01 {
            Ok(ControlPacket::Init(sid))
        } else if tag == 0x02 {
            let payload = copy_range(data, 9, data.len());
            assert(payload@ =~= data@.skip(9));
            Ok(ControlPacket::Data(sid, payload))
        } else if tag == 0x03 {
            Ok(ControlPacket::Refused(sid))
        } else if tag == 0x04 {
            Ok(ControlPacket::End(sid))
        } else if tag == 0x05 {
            if sid_value == EMPTY_STREAM_ID {
                Ok(ControlPacket::Ping(None))
            } else {
                let payload = copy_range(data, 9, data.len());
                assert(payload@ =~= data@.skip(9));
                let text = crate::text::utf8_lossy(payload.as_slice());
                Ok(ControlPacket::Ping(Some(ReconnectToken(text))))
            }
        } else {
            Err(CodecError::UnknownTag)
        }
    }
}

/// Codec round trip: deserializing a serialized frame gives the frame
/// back, token text included.
pub proof fn lemma_codec_round_trip(p: PacketModel)
    ensures
        spec_deserialize(spec_serialize(p)) == Result::<PacketModel, CodecError>::Ok(p),
{
    let b = spec_serialize(p);
    match p {
        PacketModel::Init(sid) => {
            assert(b.subrange(1, 9) =~= spec_u64_bytes(sid));
            lemma_u64_bytes_round_trip(sid);
        },
        PacketModel::Data(sid, data) => {
            assert(b.subrange(1, 9) =~= spec_u64_bytes(sid));
            lemma_u64_bytes_round_trip(sid);
            assert(b.skip(9) =~= data);
        },
        PacketModel::Refused(sid) => {
            assert(b.subrange(1, 9) =~= spec_u64_bytes(sid));
            lemma_u64_bytes_round_trip(sid);
        },
        PacketModel::End(sid) => {
            assert(b.subrange(1, 9) =~= spec_u64_bytes(sid));
            lemma_u64_bytes_round_trip(sid);
        },
        PacketModel::Ping(tok) => match tok {
            None => {
                assert(b.subrange(1, 9) =~= spec_u64_bytes(EMPTY_STREAM_ID));
                lemma_u64_bytes_round_trip(EMPTY_STREAM_ID);
            },
            Some(t) => {
                assert(b.subrange(1, 9) =~= spec_u64_bytes(TOKEN_STREAM_ID));
                lemma_u64_bytes_round_trip(TOKEN_STREAM_ID);
                assert(b.skip(9) =~= vstd::utf8::encode_utf8(t));
                vstd::utf8::encode_utf8_decode_utf8(t);
            },
        },
    }
}

/// Short frames are always rejected: fewer than nine bytes never
/// deserialize.
pub proof fn lemma_short_frame_rejected(b: Seq<u8>)
    requires
        b.len() < 9,
    ensures
        spec_deserialize(b) == Result::<PacketModel, CodecError>::Err(CodecError::TooShort),
{
}

} // verus!

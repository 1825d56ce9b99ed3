//! Packets of the metrics agent protocol and their framing on the wire.
//!
//! A frame is an 8-byte header, the packet type and the body length, each a
//! little-endian `u32`, followed by the body bytes.
use vstd::prelude::*;

verus! {

/// The packet kinds this service sends and expects.
#[derive(Debug, Clone, Copy, PartialEq, Eq, Structural)]
pub enum PacketType {
    /// A request for the agent's current metrics.
    GetMetrics,
    /// The agent's answer to `GetMetrics`, whose body is a JSON document.
    GetMetricsResult,
}

/// Wire code of [`PacketType::GetMetrics`].
pub const GET_METRICS_CODE: u32 = 4;

/// Wire code of [`PacketType::GetMetricsResult`].
pub const GET_METRICS_RESULT_CODE: u32 = 41;

/// The packet type that a wire code names, if any.
pub open spec fn packet_type_of(code: u32) -> Option<PacketType> {
    if code == GET_METRICS_CODE {
        Some(PacketType::GetMetrics)
    } else if code == GET_METRICS_RESULT_CODE {
        Some(PacketType::GetMetricsResult)
    } else {
        None
    }
}

impl PacketType {
    /// The wire code of this packet type.
    pub open spec fn wire_code(self) -> u32 {
        match self {
            PacketType::GetMetrics => GET_METRICS_CODE,
            PacketType::GetMetricsResult => GET_METRICS_RESULT_CODE,
        }
    }

    /// The wire code of this packet type.
    pub fn code(self) -> (c: u32)
        ensures
            c == self.wire_code(),
    {
        match self {
            PacketType::GetMetrics => GET_METRICS_CODE,
            PacketType::GetMetricsResult => GET_METRICS_RESULT_CODE,
        }
    }

    /// The packet type that `code` names; `None` for an unknown code.
    pub fn from_code(code: u32) -> (t: Option<PacketType>)
        ensures
            t == packet_type_of(code),
    {
        if code == GET_METRICS_CODE {
            Some(PacketType::GetMetrics)
        } else if code == GET_METRICS_RESULT_CODE {
            Some(PacketType::GetMetricsResult)
        } else {
            None
        }
    }
}

/// Every packet type is named back by its own wire code, and two types never
/// share a code.
pub proof fn lemma_packet_type_code_roundtrip(t: PacketType, u: PacketType)
    ensures
        packet_type_of(t.wire_code()) == Some(t),
        t.wire_code() == u.wire_code() ==> t == u,
{
}

/// The four little-endian bytes of `x`.
pub open spec fn le32(x: u32) -> Seq<u8> {
    seq![
        (x & 0xff) as u8,
        ((x >> 8) & 0xff) as u8,
        ((x >> 16) & 0xff) as u8,
        ((x >> 24) & 0xff) as u8,
    ]
}

/// The `u32` whose little-endian bytes are the first four of `b`.
pub open spec fn from_le32(b: Seq<u8>) -> u32
    recommends
        b.len() >= 4,
{
    (b[0] as u32) | ((b[1] as u32) << 8) | ((b[2] as u32) << 16) | ((b[3] as u32) << 24)
}

/// Reading back the bytes of a `u32` gives the `u32`; writing the value of four
/// bytes gives the bytes.
pub proof fn lemma_le32_roundtrip(x: u32, b: Seq<u8>)
    ensures
        le32(x).len() == 4,
        from_le32(le32(x)) == x,
        b.len() == 4 ==> le32(from_le32(b)) == b,
{
    let b0 = (x & 0xff) as u8;
    let b1 = ((x >> 8) & 0xff) as u8;
    let b2 = ((x >> 16) & 0xff) as u8;
    let b3 = ((x >> 24) & 0xff) as u8;
    assert(((b0 as u32) | ((b1 as u32) << 8) | ((b2 as u32) << 16) | ((b3 as u32) << 24)) == x)
        by (bit_vector)
        requires
            b0 == (x & 0xff) as u8,
            b1 == ((x >> 8) & 0xff) as u8,
            b2 == ((x >> 16) & 0xff) as u8,
            b3 == ((x >> 24) & 0xff) as u8,
    ;
    if b.len() == 4 {
        let c0 = b[0];
        let c1 = b[1];
        let c2 = b[2];
        let c3 = b[3];
        let y = from_le32(b);
        assert(c0 == (y & 0xff) as u8 && c1 == ((y >> 8) & 0xff) as u8 && c2 == ((y >> 16) & 0xff)
            as u8 && c3 == ((y >> 24) & 0xff) as u8) by (bit_vector)
            requires
                y == (c0 as u32) | ((c1 as u32) << 8) | ((c2 as u32) << 16) | ((c3 as u32) << 24),
        ;
        assert(le32(y) =~= b);
    }
}

/// The 8 header bytes of a frame.
pub open spec fn header_bytes(packet_type: u32, body_size: u32) -> Seq<u8> {
    le32(packet_type) + le32(body_size)
}

/// The bytes that a packet with these fields takes on the wire.
pub open spec fn frame_bytes(packet_type: u32, body_size: u32, body: Seq<u8>) -> Seq<u8> {
    header_bytes(packet_type, body_size) + body
}

/// The packet type and body length that an 8-byte header declares.
pub open spec fn header_fields(header: Seq<u8>) -> (u32, u32) {
    (from_le32(header.subrange(0, 4)), from_le32(header.subrange(4, 8)))
}

/// What a buffer holds at its front: the packet type, the declared body
/// length, the body and the number of bytes the frame takes; `None` while the
/// buffer holds less than a whole frame.
pub open spec fn parse_frame_spec(buf: Seq<u8>) -> Option<(u32, u32, Seq<u8>, nat)> {
    if buf.len() < 8 {
        None
    } else {
        let (t, s) = header_fields(buf.subrange(0, 8));
        if buf.len() < 8 + s {
            None
        } else {
            Some((t, s, buf.subrange(8, 8 + s), (8 + s) as nat))
        }
    }
}

/// A packet as it travels between this service and a metrics agent.
#[derive(Debug, Clone)]
pub struct Packet {
    /// Wire code of the packet type.
    pub packet_type: u32,
    /// Declared length of the body.
    pub body_size: u32,
    /// The body.
    pub body: Vec<u8>,
}

impl Packet {
    /// The declared body length is the real one.
    pub open spec fn well_formed(&self) -> bool {
        self.body_size as int == self.body@.len()
    }

    /// A packet of the given type around `body`; the declared length is the
    /// body's length, cut to 32 bits.
    pub fn new(packet_type: u32, body: Vec<u8>) -> (p: Packet)
        ensures
            p.packet_type == packet_type,
            p.body@ == body@,
            p.body_size == body@.len() as u32,
            body@.len() <= u32::MAX ==> p.well_formed(),
    {
        #[verifier::truncate]
        let body_size = body.len() as u32;
        Packet { packet_type, body_size, body }
    }

    /// The bytes of this packet's frame: the header, then the body.
    pub fn encode(&self) -> (bytes: Vec<u8>)
        ensures
            bytes@ == frame_bytes(self.packet_type, self.body_size, self.body@),
    {
        let mut bytes = encode_header(self.packet_type, self.body_size);
        let n = self.body.len();
        let mut i: usize = 0;
        while i < n
            invariant
                n == self.body@.len(),
                i <= n,
                bytes@ == header_bytes(self.packet_type, self.body_size) + self.body@.subrange(
                    0,
                    i as int,
                ),
            decreases n - i,
        {
            bytes.push(self.body[i]);
            i = i + 1;
            assert(self.body@.subrange(0, i as int) =~= self.body@.subrange(0, i - 1).push(
                self.body@[i - 1],
            ));
        }
        assert(self.body@.subrange(0, n as int) =~= self.body@);
        bytes
    }
}

/// The 8 header bytes for a packet type and a body length.
pub fn encode_header(packet_type: u32, body_size: u32) -> (header: Vec<u8>)
    ensures
        header@ == header_bytes(packet_type, body_size),
{
    let mut header: Vec<u8> = Vec::new();
    header.push((packet_type & 0xff) as u8);
    header.push(((packet_type >> 8) & 0xff) as u8);
    header.push(((packet_type >> 16) & 0xff) as u8);
    header.push(((packet_type >> 24) & 0xff) as u8);
    header.push((body_size & 0xff) as u8);
    header.push(((body_size >> 8) & 0xff) as u8);
    header.push(((body_size >> 16) & 0xff) as u8);
    header.push(((body_size >> 24) & 0xff) as u8);
    assert(header@ =~= header_bytes(packet_type, body_size));
    header
}

/// The `u32` whose little-endian bytes start at `at` in `bytes`.
fn read_le32(bytes: &[u8], at: usize) -> (x: u32)
    requires
        at + 4 <= bytes@.len(),
    ensures
        x == from_le32(bytes@.subrange(at as int, at + 4)),
{
    let ghost b = bytes@.subrange(at as int, at + 4);
    assert(b[0] == bytes[at as int] && b[1] == bytes[at + 1] && b[2] == bytes[at + 2] && b[3]
        == bytes[at + 3]);
    (bytes[at] as u32) | ((bytes[at + 1] as u32) << 8) | ((bytes[at + 2] as u32) << 16) | ((
    bytes[at + 3] as u32) << 24)
}

/// The packet type and the body length that an 8-byte header declares.
pub fn decode_header(header: &[u8]) -> (fields: (u32, u32))
    requires
        header@.len() == 8,
    ensures
        fields == header_fields(header@),
{
    let t = read_le32(header, 0);
    let s = read_le32(header, 4);
    (t, s)
}

/// The packet at the front of `buf` and the number of bytes its frame takes;
/// `None` while `buf` holds less than a whole frame.
pub fn parse_frame(buf: &[u8]) -> (r: Option<(Packet, usize)>)
    ensures
        match (r, parse_frame_spec(buf@)) {
            (None, None) => true,
            (Some((p, n)), Some((t, s, body, m))) => p.packet_type == t && p.body_size == s
                && p.body@ == body && n == m && p.well_formed(),
            _ => false,
        },
{
    if buf.len() < 8 {
        return None;
    }
    let t = read_le32(buf, 0);
    let s = read_le32(buf, 4);
    proof {
        assert(buf@.subrange(0, 8).subrange(0, 4) =~= buf@.subrange(0, 4));
        assert(buf@.subrange(0, 8).subrange(4, 8) =~= buf@.subrange(4, 8));
    }
    let size = s as usize;
    if buf.len() - 8 < size {
        return None;
    }
    let mut body: Vec<u8> = Vec::new();
    let mut i: usize = 0;
    while i < size
        invariant
            i <= size,
            8 + size <= buf.len(),
            body@ == buf@.subrange(8, 8 + i),
        decreases size - i,
    {
        body.push(buf[8 + i]);
        i = i + 1;
        assert(body@ =~= buf@.subrange(8, 8 + i));
    }
    Some((Packet { packet_type: t, body_size: s, body }, 8 + size))
}

/// Reading the frame of a well-formed packet back, from a buffer that may hold
/// more after it, gives the packet's fields and body, and the frame's length.
pub proof fn lemma_frame_roundtrip(packet_type: u32, body: Seq<u8>, rest: Seq<u8>)
    requires
        body.len() <= u32::MAX,
    ensures
        parse_frame_spec(frame_bytes(packet_type, body.len() as u32, body) + rest) == Some(
            (packet_type, body.len() as u32, body, (8 + body.len()) as nat),
        ),
{
    let s = body.len() as u32;
    let buf = frame_bytes(packet_type, s, body) + rest;
    lemma_le32_roundtrip(packet_type, Seq::empty());
    lemma_le32_roundtrip(s, Seq::empty());
    assert(buf.subrange(0, 8).subrange(0, 4) =~= le32(packet_type));
    assert(buf.subrange(0, 8).subrange(4, 8) =~= le32(s));
    assert(buf.subrange(8, 8 + s) =~= body);
}

/// The header that encodes a type and a length declares that type and length.
pub proof fn lemma_header_roundtrip(packet_type: u32, body_size: u32)
    ensures
        header_bytes(packet_type, body_size).len() == 8,
        header_fields(header_bytes(packet_type, body_size)) == (packet_type, body_size),
{
    lemma_le32_roundtrip(packet_type, Seq::empty());
    lemma_le32_roundtrip(body_size, Seq::empty());
    let h = header_bytes(packet_type, body_size);
    assert(h.subrange(0, 4) =~= le32(packet_type));
    assert(h.subrange(4, 8) =~= le32(body_size));
}

} // verus!

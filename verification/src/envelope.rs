//! The fixed eight-byte header that precedes every binary WebSocket frame,
//! and the little-endian integer layout shared by all payloads.

use vstd::prelude::*;

verus! {

/// The only protocol version this daemon speaks.
pub const PROTOCOL_VERSION: u8 = 1;

/// Number of bytes in an envelope.
pub const HEADER_LEN: usize = 8;

pub const OP_CLIENT_HELLO: u8 = 0x01;
pub const OP_SERVER_HELLO: u8 = 0x02;
pub const OP_AUTH: u8 = 0x03;
pub const OP_AUTH_RESULT: u8 = 0x04;
pub const OP_ERROR: u8 = 0x7F;

pub const OP_TCP_CONNECT: u8 = 0x10;
pub const OP_TCP_CONNECTED: u8 = 0x11;
pub const OP_TCP_SEND: u8 = 0x12;
pub const OP_TCP_RECV: u8 = 0x13;
pub const OP_TCP_CLOSE: u8 = 0x14;
pub const OP_TCP_LISTEN: u8 = 0x15;
pub const OP_TCP_LISTEN_RESULT: u8 = 0x16;
pub const OP_TCP_ACCEPT: u8 = 0x17;
pub const OP_TCP_STOP_LISTEN: u8 = 0x18;

pub const OP_UDP_BIND: u8 = 0x20;
pub const OP_UDP_BOUND: u8 = 0x21;
pub const OP_UDP_SEND: u8 = 0x22;
pub const OP_UDP_RECV: u8 = 0x23;
pub const OP_UDP_CLOSE: u8 = 0x24;
pub const OP_UDP_JOIN_MULTICAST: u8 = 0x25;
pub const OP_UDP_LEAVE_MULTICAST: u8 = 0x26;

/// The two bytes of `x`, least significant first.
pub open spec fn u16_le(x: u16) -> Seq<u8> {
    seq![(x % 256) as u8, (x / 256) as u8]
}

/// The four bytes of `x`, least significant first.
pub open spec fn u32_le(x: u32) -> Seq<u8> {
    seq![
        (x % 256) as u8,
        ((x / 256) % 256) as u8,
        ((x / 65536) % 256) as u8,
        (x / 16777216) as u8,
    ]
}

/// The number whose little-endian bytes are `b0, b1`.
pub open spec fn le_u16(b0: u8, b1: u8) -> u16 {
    (b0 + 256 * b1) as u16
}

/// The number whose little-endian bytes are `b0, b1, b2, b3`.
pub open spec fn le_u32(b0: u8, b1: u8, b2: u8, b3: u8) -> u32 {
    (b0 + 256 * b1 + 65536 * b2 + 16777216 * b3) as u32
}

/// The 16-bit little-endian number at offset `at` of `bytes`.
pub open spec fn u16_at(bytes: Seq<u8>, at: int) -> u16
    recommends
        0 <= at,
        at + 2 <= bytes.len(),
{
    le_u16(bytes[at], bytes[at + 1])
}

/// The 32-bit little-endian number at offset `at` of `bytes`.
pub open spec fn u32_at(bytes: Seq<u8>, at: int) -> u32
    recommends
        0 <= at,
        at + 4 <= bytes.len(),
{
    le_u32(bytes[at], bytes[at + 1], bytes[at + 2], bytes[at + 3])
}

/// Reads a little-endian `u16` at offset `at`.
pub fn read_u16(bytes: &[u8], at: usize) -> (x: u16)
    requires
        at + 2 <= bytes@.len(),
    ensures
        x == u16_at(bytes@, at as int),
{
    let b0: u16 = bytes[at] as u16;
    let b1: u16 = bytes[at + 1] as u16;
    b0 + 256 * b1
}

/// Reads a little-endian `u32` at offset `at`.
pub fn read_u32(bytes: &[u8], at: usize) -> (x: u32)
    requires
        at + 4 <= bytes@.len(),
    ensures
        x == u32_at(bytes@, at as int),
{
    let b0: u32 = bytes[at] as u32;
    let b1: u32 = bytes[at + 1] as u32;
    let b2: u32 = bytes[at + 2] as u32;
    let b3: u32 = bytes[at + 3] as u32;
    b0 + 256 * b1 + 65536 * b2 + 16777216 * b3
}

/// Appends the little-endian bytes of `x` to `out`.
pub fn push_u16(out: &mut Vec<u8>, x: u16)
    ensures
        final(out)@ == old(out)@ + u16_le(x),
{
    out.push((x % 256) as u8);
    out.push((x / 256) as u8);
}

/// Appends the little-endian bytes of `x` to `out`.
pub fn push_u32(out: &mut Vec<u8>, x: u32)
    ensures
        final(out)@ == old(out)@ + u32_le(x),
{
    out.push((x % 256) as u8);
    out.push(((x / 256) % 256) as u8);
    out.push(((x / 65536) % 256) as u8);
    out.push((x / 16777216) as u8);
}

/// Decoding the encoding of a 16-bit number gives the number back.
pub proof fn lemma_u16_round_trip(x: u16)
    ensures
        u16_le(x).len() == 2,
        u16_at(u16_le(x), 0) == x,
{
}

/// Decoding the encoding of a 32-bit number gives the number back.
pub proof fn lemma_u32_round_trip(x: u32)
    ensures
        u32_le(x).len() == 4,
        u32_at(u32_le(x), 0) == x,
{
}

/// The header of one frame.
#[derive(Clone, Copy, Debug, PartialEq, Eq, Structural)]
pub struct Envelope {
    pub version: u8,
    pub msg_type: u8,
    pub flags: u16,
    pub request_id: u32,
}

impl Envelope {
    /// The eight bytes that stand for this header on the wire: version,
    /// opcode, flags (little-endian), request id (little-endian).
    pub open spec fn encode(self) -> Seq<u8> {
        seq![self.version, self.msg_type] + u16_le(self.flags) + u32_le(self.request_id)
    }

    /// The header held in the first eight bytes of `bytes`.
    pub open spec fn decode(bytes: Seq<u8>) -> Envelope
        recommends
            bytes.len() >= 8,
    {
        Envelope {
            version: bytes[0],
            msg_type: bytes[1],
            flags: u16_at(bytes, 2),
            request_id: u32_at(bytes, 4),
        }
    }

    /// A header of the current protocol version with no flags set.
    pub fn new(msg_type: u8, request_id: u32) -> (env: Envelope)
        ensures
            env == (Envelope { version: PROTOCOL_VERSION, msg_type, flags: 0, request_id }),
    {
        Envelope { version: PROTOCOL_VERSION, msg_type, flags: 0, request_id }
    }

    /// Serialises the header.
    pub fn to_bytes(&self) -> (bytes: [u8; 8])
        ensures
            bytes@ == self.encode(),
    {
        let bytes: [u8; 8] = [
            self.version,
            self.msg_type,
            (self.flags % 256) as u8,
            (self.flags / 256) as u8,
            (self.request_id % 256) as u8,
            ((self.request_id / 256) % 256) as u8,
            ((self.request_id / 65536) % 256) as u8,
            (self.request_id / 16777216) as u8,
        ];
        assert(bytes@ =~= self.encode());
        bytes
    }

    /// Reads a header from the front of `bytes`; `None` exactly when fewer
    /// than eight bytes are given.
    pub fn from_bytes(bytes: &[u8]) -> (env: Option<Envelope>)
        ensures
            bytes@.len() < 8 ==> env is None,
            bytes@.len() >= 8 ==> env == Some(Envelope::decode(bytes@)),
    {
        if bytes.len() < 8 {
            return None;
        }
        Some(
            Envelope {
                version: bytes[0],
                msg_type: bytes[1],
                flags: read_u16(bytes, 2),
                request_id: read_u32(bytes, 4),
            },
        )
    }
}

/// A header survives being written and read back.
pub proof fn lemma_envelope_round_trip(env: Envelope)
    ensures
        env.encode().len() == 8,
        Envelope::decode(env.encode()) == env,
{
}

/// Encoding the number read from two bytes gives the two bytes back.
pub proof fn lemma_u16_bytes_round_trip(b0: u8, b1: u8)
    ensures
        u16_le(le_u16(b0, b1)) == seq![b0, b1],
{
    let x = le_u16(b0, b1);
    assert(x == b0 + 256 * b1);
    assert(x % 256 == b0);
    assert(x / 256 == b1);
    assert(u16_le(x) =~= seq![b0, b1]);
}

/// Encoding the number read from four bytes gives the four bytes back.
pub proof fn lemma_u32_bytes_round_trip(b0: u8, b1: u8, b2: u8, b3: u8)
    ensures
        u32_le(le_u32(b0, b1, b2, b3)) == seq![b0, b1, b2, b3],
{
    let x = le_u32(b0, b1, b2, b3);
    assert(x == b0 + 256 * b1 + 65536 * b2 + 16777216 * b3);
    assert(x % 256 == b0);
    assert((x / 256) % 256 == b1);
    assert((x / 65536) % 256 == b2);
    assert(x / 16777216 == b3);
    assert(u32_le(x) =~= seq![b0, b1, b2, b3]);
}

/// Reading a header and writing it again reproduces the first eight bytes.
pub proof fn lemma_envelope_encode_decode(bytes: Seq<u8>)
    requires
        bytes.len() >= 8,
    ensures
        Envelope::decode(bytes).encode() == bytes.take(8),
{
    lemma_u16_bytes_round_trip(bytes[2], bytes[3]);
    lemma_u32_bytes_round_trip(bytes[4], bytes[5], bytes[6], bytes[7]);
    let env = Envelope::decode(bytes);
    assert(u16_le(env.flags) == seq![bytes[2], bytes[3]]);
    assert(u32_le(env.request_id) == seq![bytes[4], bytes[5], bytes[6], bytes[7]]);
    assert(env.encode() =~= bytes.take(8));
}

} // verus!

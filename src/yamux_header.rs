use vstd::prelude::*;

verus! {

/// Length in bytes of a multiplexer frame header.
pub const HEADER_LEN: usize = 12;

/// Flag opening a substream.
pub const FLAG_SYN: u16 = 1;
/// Flag acknowledging the opening of a substream.
pub const FLAG_ACK: u16 = 2;
/// Flag closing the writing side of a substream.
pub const FLAG_FIN: u16 = 4;
/// Flag resetting a substream.
pub const FLAG_RST: u16 = 8;

/// Type of a multiplexer frame.
#[derive(Debug, Clone, Copy, PartialEq, Eq, Structural)]
pub enum FrameType {
    Data,
    WindowUpdate,
    Ping,
    GoAway,
}

/// Header of a multiplexer frame.
#[derive(Debug, Clone, Copy, PartialEq, Eq, Structural)]
pub struct Header {
    pub frame_type: FrameType,
    pub flags: u16,
    pub stream_id: u32,
    pub length: u32,
}

/// Why a frame header could not be read.
#[derive(Debug, Clone, Copy, PartialEq, Eq, Structural)]
pub enum HeaderError {
    /// The version byte is not zero.
    UnknownVersion,
    /// The type byte is over three.
    UnknownFrameType,
}

/// Byte that stands for a frame type on the wire.
pub open spec fn frame_type_byte(t: FrameType) -> u8 {
    match t {
        FrameType::Data => 0,
        FrameType::WindowUpdate => 1,
        FrameType::Ping => 2,
        FrameType::GoAway => 3,
    }
}

/// Frame type that a byte below four stands for.
pub open spec fn frame_type_of(b: u8) -> FrameType {
    if b == 0 {
        FrameType::Data
    } else if b == 1 {
        FrameType::WindowUpdate
    } else if b == 2 {
        FrameType::Ping
    } else {
        FrameType::GoAway
    }
}

/// Big-endian bytes of a 16-bit number.
pub open spec fn be16(x: u16) -> Seq<u8> {
    seq![(x >> 8u16) as u8, (x & 0xffu16) as u8]
}

/// Big-endian bytes of a 32-bit number.
pub open spec fn be32(x: u32) -> Seq<u8> {
    seq![
        (x >> 24u32) as u8,
        ((x >> 16u32) & 0xffu32) as u8,
        ((x >> 8u32) & 0xffu32) as u8,
        (x & 0xffu32) as u8,
    ]
}

/// Number whose big-endian bytes are `a`, `b`.
pub open spec fn from_be16(a: u8, b: u8) -> u16 {
    ((a as u16) << 8u16) | (b as u16)
}

/// Number whose big-endian bytes are `a`, `b`, `c`, `d`.
pub open spec fn from_be32(a: u8, b: u8, c: u8, d: u8) -> u32 {
    ((a as u32) << 24u32) | ((b as u32) << 16u32) | ((c as u32) << 8u32) | (d as u32)
}

/// The twelve bytes of a header: version zero, type, flags, stream id, length.
pub open spec fn header_bytes(h: Header) -> Seq<u8> {
    seq![0u8, frame_type_byte(h.frame_type)] + be16(h.flags) + be32(h.stream_id) + be32(h.length)
}

/// What reading a header at the start of `s` gives: `Ok(None)` while fewer than twelve bytes
/// are there.
pub open spec fn header_decode_spec(s: Seq<u8>) -> Result<Option<Header>, HeaderError> {
    if s.len() < HEADER_LEN {
        Ok(None)
    } else if s[0] != 0 {
        Err(HeaderError::UnknownVersion)
    } else if s[1] > 3 {
        Err(HeaderError::UnknownFrameType)
    } else {
        Ok(
            Some(
                Header {
                    frame_type: frame_type_of(s[1]),
                    flags: from_be16(s[2], s[3]),
                    stream_id: from_be32(s[4], s[5], s[6], s[7]),
                    length: from_be32(s[8], s[9], s[10], s[11]),
                },
            ),
        )
    }
}

proof fn lemma_be16_round_trip(x: u16)
    ensures
        from_be16((x >> 8u16) as u8, (x & 0xffu16) as u8) == x,
{
    assert((((((x >> 8u16) as u8) as u16) << 8u16) | (((x & 0xffu16) as u8) as u16)) == x)
        by (bit_vector);
}

proof fn lemma_be32_round_trip(x: u32)
    ensures
        from_be32(
            (x >> 24u32) as u8,
            ((x >> 16u32) & 0xffu32) as u8,
            ((x >> 8u32) & 0xffu32) as u8,
            (x & 0xffu32) as u8,
        ) == x,
{
    assert((((((x >> 24u32) as u8) as u32) << 24u32) | (((((x >> 16u32) & 0xffu32) as u8) as u32)
        << 16u32) | (((((x >> 8u32) & 0xffu32) as u8) as u32) << 8u32) | (((x & 0xffu32) as u8)
        as u32)) == x) by (bit_vector);
}

/// A header read back, followed by anything, is the header that was written.
pub proof fn lemma_header_round_trip(h: Header, rest: Seq<u8>)
    ensures
        header_bytes(h).len() == HEADER_LEN,
        header_decode_spec(header_bytes(h) + rest) == Ok::<Option<Header>, HeaderError>(Some(h)),
{
    let s = header_bytes(h) + rest;
    lemma_be16_round_trip(h.flags);
    lemma_be32_round_trip(h.stream_id);
    lemma_be32_round_trip(h.length);
    assert(s[2] == (h.flags >> 8u16) as u8);
    assert(s[3] == (h.flags & 0xffu16) as u8);
    assert(s[4] == (h.stream_id >> 24u32) as u8);
    assert(s[8] == (h.length >> 24u32) as u8);
}

/// Writes the twelve bytes of a header.
pub fn encode_header(h: &Header) -> (r: Vec<u8>)
    ensures
        r@ == header_bytes(*h),
{
    let t: u8 = match h.frame_type {
        FrameType::Data => 0,
        FrameType::WindowUpdate => 1,
        FrameType::Ping => 2,
        FrameType::GoAway => 3,
    };
    let mut out: Vec<u8> = Vec::new();
    out.push(0);
    out.push(t);
    out.push((h.flags >> 8u16) as u8);
    out.push((h.flags & 0xffu16) as u8);
    out.push((h.stream_id >> 24u32) as u8);
    out.push(((h.stream_id >> 16u32) & 0xffu32) as u8);
    out.push(((h.stream_id >> 8u32) & 0xffu32) as u8);
    out.push((h.stream_id & 0xffu32) as u8);
    out.push((h.length >> 24u32) as u8);
    out.push(((h.length >> 16u32) & 0xffu32) as u8);
    out.push(((h.length >> 8u32) & 0xffu32) as u8);
    out.push((h.length & 0xffu32) as u8);
    proof {
        assert(out@ =~= header_bytes(*h));
    }
    out
}

/// Reads a header at the start of `bytes`. Returns `Ok(None)` while fewer than twelve bytes
/// are there.
pub fn decode_header(bytes: &[u8]) -> (r: Result<Option<Header>, HeaderError>)
    ensures
        r == header_decode_spec(bytes@),
{
    if bytes.len() < HEADER_LEN {
        return Ok(None);
    }
    if bytes[0] != 0 {
        return Err(HeaderError::UnknownVersion);
    }
    let frame_type = match bytes[1] {
        0 => FrameType::Data,
        1 => FrameType::WindowUpdate,
        2 => FrameType::Ping,
        3 => FrameType::GoAway,
        _ => {
            return Err(HeaderError::UnknownFrameType);
        },
    };
    let flags: u16 = ((bytes[2] as u16) << 8u16) | (bytes[3] as u16);
    let stream_id: u32 = ((bytes[4] as u32) << 24u32) | ((bytes[5] as u32) << 16u32) | ((
    bytes[6] as u32) << 8u32) | (bytes[7] as u32);
    let length: u32 = ((bytes[8] as u32) << 24u32) | ((bytes[9] as u32) << 16u32) | ((
    bytes[10] as u32) << 8u32) | (bytes[11] as u32);
    Ok(Some(Header { frame_type, flags, stream_id, length }))
}

} // verus!

use vstd::prelude::*;
use crate::leb128::{
    LebDecodeError, leb_decode, leb_decode_spec, leb_encode, leb_encode_u64, lemma_leb_round_trip,
};

verus! {

/// Why a length-prefixed frame or a multistream-select line could not be read.
#[derive(Debug, Clone, Copy, PartialEq, Eq, Structural)]
pub enum FrameError {
    /// The announced length is over the maximum that the reader accepts.
    TooLarge,
    /// The length prefix is not a valid 64-bit variable-length integer.
    InvalidLength,
    /// A multistream-select line does not end with a new line character.
    MissingNewline,
}

/// The new line character that ends every multistream-select line.
pub const NEWLINE: u8 = 10;

/// Frame carrying `payload`: its length as a variable-length integer, then the payload.
pub open spec fn frame_spec(payload: Seq<u8>) -> Seq<u8> {
    leb_encode(payload.len()) + payload
}

/// Multistream-select line carrying `msg`: a frame holding `msg` and a new line character.
pub open spec fn line_spec(msg: Seq<u8>) -> Seq<u8> {
    frame_spec(msg.push(NEWLINE))
}

/// What reading a frame at the start of `s` gives, when payloads over `max` bytes are refused:
/// `Ok(None)` while more bytes are needed, else the payload and the number of bytes taken.
pub open spec fn frame_decode_spec(s: Seq<u8>, max: nat) -> Result<
    Option<(Seq<u8>, nat)>,
    FrameError,
> {
    match leb_decode_spec(s) {
        Err(LebDecodeError::Invalid) => Ok(None),
        Err(LebDecodeError::Overflow) => Err(FrameError::InvalidLength),
        Ok((len, n)) => if len > max {
            Err(FrameError::TooLarge)
        } else if n + len > s.len() {
            Ok(None)
        } else {
            Ok(Some((s.subrange(n as int, n + len), (n + len) as nat)))
        },
    }
}

/// What reading a multistream-select line at the start of `s` gives, when messages over `max`
/// bytes are refused: the message without its new line character.
pub open spec fn line_decode_spec(s: Seq<u8>, max: nat) -> Result<
    Option<(Seq<u8>, nat)>,
    FrameError,
> {
    match frame_decode_spec(s, max + 1) {
        Err(e) => Err(e),
        Ok(None) => Ok(None),
        Ok(Some((p, c))) => if p.len() >= 1 && p.last() == NEWLINE {
            Ok(Some((p.drop_last(), c)))
        } else {
            Err(FrameError::MissingNewline)
        },
    }
}

/// The model of a decoding outcome.
pub open spec fn decoded_view(r: Result<Option<(Vec<u8>, usize)>, FrameError>) -> Result<
    Option<(Seq<u8>, nat)>,
    FrameError,
> {
    match r {
        Err(e) => Err(e),
        Ok(None) => Ok(None),
        Ok(Some((p, c))) => Ok(Some((p@, c as nat))),
    }
}

/// A frame read back, followed by anything, gives its payload, whenever the payload is within
/// the maximum.
pub proof fn lemma_frame_round_trip(payload: Seq<u8>, rest: Seq<u8>, max: nat)
    requires
        payload.len() <= max,
        payload.len() <= u64::MAX,
    ensures
        frame_decode_spec(frame_spec(payload) + rest, max) == Ok::<
            Option<(Seq<u8>, nat)>,
            FrameError,
        >(Some((payload, frame_spec(payload).len()))),
{
    let n = payload.len() as u64;
    let e = leb_encode(n as nat);
    let s = frame_spec(payload) + rest;
    assert(s =~= e + (payload + rest));
    lemma_leb_round_trip(n, payload + rest);
    assert(s.subrange(e.len() as int, (e.len() + payload.len()) as int) =~= payload);
}

/// A line read back, followed by anything, gives its message, whenever the message is within
/// the maximum.
pub proof fn lemma_line_round_trip(msg: Seq<u8>, rest: Seq<u8>, max: nat)
    requires
        msg.len() <= max,
        msg.len() < u64::MAX,
    ensures
        line_decode_spec(line_spec(msg) + rest, max) == Ok::<Option<(Seq<u8>, nat)>, FrameError>(
            Some((msg, line_spec(msg).len())),
        ),
{
    lemma_frame_round_trip(msg.push(NEWLINE), rest, max + 1);
    assert(msg.push(NEWLINE).drop_last() =~= msg);
}

/// Appends the bytes of `src` to `out`.
pub fn append_bytes(out: &mut Vec<u8>, src: &[u8])
    ensures
        final(out)@ == old(out)@ + src@,
{
    let mut i: usize = 0;
    while i < src.len()
        invariant
            i <= src@.len(),
            out@ == old(out)@ + src@.take(i as int),
        decreases src@.len() - i,
    {
        proof {
            assert(src@.take(i + 1) =~= src@.take(i as int).push(src@[i as int]));
        }
        out.push(src[i]);
        i = i + 1;
    }
    proof {
        assert(src@.take(i as int) =~= src@);
    }
}

/// Copies the bytes of `src` from `start` to `end`.
pub fn copy_range(src: &[u8], start: usize, end: usize) -> (r: Vec<u8>)
    requires
        start <= end <= src@.len(),
    ensures
        r@ == src@.subrange(start as int, end as int),
{
    let mut out: Vec<u8> = Vec::new();
    let mut i: usize = start;
    while i < end
        invariant
            start <= i <= end,
            end <= src@.len(),
            out@ == src@.subrange(start as int, i as int),
        decreases end - i,
    {
        proof {
            assert(src@.subrange(start as int, i + 1) =~= src@.subrange(start as int, i as int).push(
                src@[i as int],
            ));
        }
        out.push(src[i]);
        i = i + 1;
    }
    out
}

/// Builds the frame that carries `payload`.
pub fn encode_frame(payload: &[u8]) -> (r: Vec<u8>)
    ensures
        r@ == frame_spec(payload@),
{
    let mut out = leb_encode_u64(payload.len() as u64);
    append_bytes(&mut out, payload);
    out
}

/// Builds the multistream-select line that carries `msg`.
pub fn encode_line(msg: &[u8]) -> (r: Vec<u8>)
    ensures
        r@ == line_spec(msg@),
{
    let mut body: Vec<u8> = Vec::new();
    append_bytes(&mut body, msg);
    body.push(NEWLINE);
    let mut out = leb_encode_u64(body.len() as u64);
    append_bytes(&mut out, body.as_slice());
    out
}

/// Reads a frame at the start of `bytes`, refusing payloads over `max_size` bytes. Returns
/// `Ok(None)` while more bytes are needed, else the payload and the number of bytes taken.
pub fn decode_frame(bytes: &[u8], max_size: usize) -> (r: Result<Option<(Vec<u8>, usize)>, FrameError>)
    ensures
        decoded_view(r) == frame_decode_spec(bytes@, max_size as nat),
{
    match leb_decode(bytes) {
        Err(LebDecodeError::Invalid) => Ok(None),
        Err(LebDecodeError::Overflow) => Err(FrameError::InvalidLength),
        Ok((len, n)) => {
            if (len as u128) > (max_size as u128) {
                Err(FrameError::TooLarge)
            } else if (n as u128) + (len as u128) > (bytes.len() as u128) {
                Ok(None)
            } else {
                let end: usize = n + len as usize;
                let payload = copy_range(bytes, n, end);
                Ok(Some((payload, end)))
            }
        },
    }
}

/// Reads a multistream-select line at the start of `bytes`, refusing messages over `max_len`
/// bytes. Returns `Ok(None)` while more bytes are needed, else the message without its new
/// line character and the number of bytes taken.
pub fn decode_line(bytes: &[u8], max_len: usize) -> (r: Result<Option<(Vec<u8>, usize)>, FrameError>)
    requires
        max_len < usize::MAX,
    ensures
        decoded_view(r) == line_decode_spec(bytes@, max_len as nat),
{
    match decode_frame(bytes, max_len + 1) {
        Err(e) => Err(e),
        Ok(None) => Ok(None),
        Ok(Some((mut p, c))) => {
            let l = p.len();
            if l >= 1 && p[l - 1] == NEWLINE {
                p.pop();
                proof {
                    assert(p@ =~= decoded_view(Ok(Some((p, c)))).unwrap().unwrap().0);
                }
                Ok(Some((p, c)))
            } else {
                Err(FrameError::MissingNewline)
            }
        },
    }
}

} // verus!

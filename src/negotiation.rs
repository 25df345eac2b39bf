use vstd::prelude::*;
use vstd::utf8::encode_utf8;
use crate::connection::{Connection, InboundProtocol, bytes_eq, multistream_header, select_spec};
use crate::framing::{FrameError, decode_line, decoded_view, encode_line, line_decode_spec, line_spec};

verus! {

/// Longest protocol name, in bytes, accepted in a negotiation line.
pub const MAX_PROTOCOL_NAME_LEN: usize = 1024;

/// Why a multistream-select negotiation failed.
#[derive(Debug, Clone, Copy, PartialEq, Eq, Structural)]
pub enum NegotiationError {
    /// A line could not be read.
    InvalidLine(FrameError),
    /// The first line is not the multistream-select header.
    BadHeader,
    /// The answer of the remote is neither the proposed protocol nor a refusal.
    UnexpectedAnswer,
}

/// The answer that refuses a proposed protocol.
pub open spec fn na_spec() -> Seq<u8> {
    encode_utf8("na"@)
}

/// What reading the multistream-select header at the start of `s` gives: `Ok(None)` while
/// more bytes are needed, else the number of bytes taken.
pub open spec fn header_read_spec(s: Seq<u8>) -> Result<Option<nat>, NegotiationError> {
    match line_decode_spec(s, MAX_PROTOCOL_NAME_LEN as nat) {
        Err(e) => Err(NegotiationError::InvalidLine(e)),
        Ok(None) => Ok(None),
        Ok(Some((l, c))) => if l == multistream_header() {
            Ok(Some(c))
        } else {
            Err(NegotiationError::BadHeader)
        },
    }
}

/// What reading the answer of the remote to the proposal of `name` gives: `Ok(None)` while
/// more bytes are needed, else whether the protocol was accepted and the number of bytes taken.
pub open spec fn answer_read_spec(s: Seq<u8>, name: Seq<u8>) -> Result<
    Option<(bool, nat)>,
    NegotiationError,
> {
    match line_decode_spec(s, MAX_PROTOCOL_NAME_LEN as nat) {
        Err(e) => Err(NegotiationError::InvalidLine(e)),
        Ok(None) => Ok(None),
        Ok(Some((l, c))) => if l == name {
            Ok(Some((true, c)))
        } else if l == na_spec() {
            Ok(Some((false, c)))
        } else {
            Err(NegotiationError::UnexpectedAnswer)
        },
    }
}

/// Reads the multistream-select header at the start of `bytes`.
pub fn read_header(bytes: &[u8]) -> (r: Result<Option<usize>, NegotiationError>)
    ensures
        match r {
            Ok(Some(c)) => header_read_spec(bytes@) == Ok::<Option<nat>, NegotiationError>(
                Some(c as nat),
            ),
            Ok(None) => header_read_spec(bytes@) == Ok::<Option<nat>, NegotiationError>(None),
            Err(e) => header_read_spec(bytes@) == Err::<Option<nat>, NegotiationError>(e),
        },
{
    let d = decode_line(bytes, MAX_PROTOCOL_NAME_LEN);
    proof {
        assert(decoded_view(d) == line_decode_spec(bytes@, MAX_PROTOCOL_NAME_LEN as nat));
    }
    match d {
        Err(e) => Err(NegotiationError::InvalidLine(e)),
        Ok(None) => Ok(None),
        Ok(Some((l, c))) => {
            if bytes_eq(l.as_slice(), "/multistream/1.0.0".as_bytes()) {
                Ok(Some(c))
            } else {
                Err(NegotiationError::BadHeader)
            }
        },
    }
}

/// Reads the answer of the remote to the proposal of the protocol `name`. Returns whether it
/// accepted it, and the number of bytes taken.
pub fn read_answer(bytes: &[u8], name: &[u8]) -> (r: Result<Option<(bool, usize)>, NegotiationError>)
    ensures
        match r {
            Ok(Some((a, c))) => answer_read_spec(bytes@, name@) == Ok::<
                Option<(bool, nat)>,
                NegotiationError,
            >(Some((a, c as nat))),
            Ok(None) => answer_read_spec(bytes@, name@) == Ok::<
                Option<(bool, nat)>,
                NegotiationError,
            >(None),
            Err(e) => answer_read_spec(bytes@, name@) == Err::<Option<(bool, nat)>, NegotiationError>(
                e,
            ),
        },
{
    let d = decode_line(bytes, MAX_PROTOCOL_NAME_LEN);
    proof {
        assert(decoded_view(d) == line_decode_spec(bytes@, MAX_PROTOCOL_NAME_LEN as nat));
    }
    match d {
        Err(e) => Err(NegotiationError::InvalidLine(e)),
        Ok(None) => Ok(None),
        Ok(Some((l, c))) => {
            if bytes_eq(l.as_slice(), name) {
                Ok(Some((true, c)))
            } else if bytes_eq(l.as_slice(), "na".as_bytes()) {
                Ok(Some((false, c)))
            } else {
                Err(NegotiationError::UnexpectedAnswer)
            }
        },
    }
}

/// Outcome of reading a protocol proposed by the remote on an incoming substream.
#[derive(Debug)]
pub struct ProposalAnswer {
    /// The protocol selected, or `None` if the proposal is refused.
    pub protocol: Option<InboundProtocol>,
    /// Number of bytes of the proposal.
    pub consumed: usize,
    /// The line to send back: the proposed name if it is selected, else a refusal.
    pub reply: Vec<u8>,
}

/// Where the proposer of a protocol stands in a negotiation.
#[derive(Debug, Clone, Copy, PartialEq, Eq, Structural)]
pub enum ProposerPhase {
    /// The header of the remote is awaited.
    Header,
    /// The answer of the remote to the proposal is awaited.
    Answer,
    /// The remote accepted the protocol.
    Accepted,
    /// The remote refused the protocol.
    Refused,
    /// The negotiation failed: bad bytes, or the remote closed the substream.
    Failed,
}

/// Phase after the answer line read from `s`, when the header was read already, and the
/// number of bytes taken.
pub open spec fn after_answer_spec(s: Seq<u8>, name: Seq<u8>, remote_closed: bool) -> (
    ProposerPhase,
    nat,
) {
    match answer_read_spec(s, name) {
        Err(_) => (ProposerPhase::Failed, 0),
        Ok(None) => if remote_closed {
            (ProposerPhase::Failed, 0)
        } else {
            (ProposerPhase::Answer, 0)
        },
        Ok(Some((true, c))) => (ProposerPhase::Accepted, c),
        Ok(Some((false, c))) => (ProposerPhase::Refused, c),
    }
}

/// What the bytes `s` received by the proposer of `name` in phase `p` do: the phase reached
/// and the number of bytes taken. Both the header and the answer are read in one go when they
/// are there; a remote that closed the substream before answering fails the negotiation.
pub open spec fn proposer_step_spec(p: ProposerPhase, s: Seq<u8>, name: Seq<u8>, remote_closed: bool) -> (
    ProposerPhase,
    nat,
) {
    match p {
        ProposerPhase::Header => match header_read_spec(s) {
            Err(_) => (ProposerPhase::Failed, 0),
            Ok(None) => if remote_closed {
                (ProposerPhase::Failed, 0)
            } else {
                (ProposerPhase::Header, 0)
            },
            Ok(Some(c)) => {
                let a = after_answer_spec(s.skip(c as int), name, remote_closed);
                (a.0, c + a.1)
            },
        },
        ProposerPhase::Answer => after_answer_spec(s, name, remote_closed),
        _ => (p, 0),
    }
}

/// Advances the proposer of `name` from phase `phase` with the bytes received so far. Returns
/// the new phase and the number of bytes taken.
pub fn proposer_step(phase: ProposerPhase, bytes: &[u8], name: &[u8], remote_closed: bool) -> (r: (
    ProposerPhase,
    usize,
))
    ensures
        (r.0, r.1 as nat) == proposer_step_spec(phase, bytes@, name@, remote_closed),
{
    match phase {
        ProposerPhase::Header => match read_header(bytes) {
            Err(_) => (ProposerPhase::Failed, 0),
            Ok(None) => if remote_closed {
                (ProposerPhase::Failed, 0)
            } else {
                (ProposerPhase::Header, 0)
            },
            Ok(Some(c)) => {
                proof {
                    assert(c <= bytes@.len()) by {
                        lemma_line_taken_within(bytes@);
                    }
                }
                let rest = vstd::slice::slice_subrange(bytes, c, bytes.len());
                assert(rest@ =~= bytes@.skip(c as int));
                let a = answer_step(rest, name, remote_closed);
                (a.0, c + a.1)
            },
        },
        ProposerPhase::Answer => answer_step(bytes, name, remote_closed),
        _ => (phase, 0),
    }
}

fn answer_step(bytes: &[u8], name: &[u8], remote_closed: bool) -> (r: (ProposerPhase, usize))
    ensures
        (r.0, r.1 as nat) == after_answer_spec(bytes@, name@, remote_closed),
        r.1 <= bytes@.len(),
{
    match read_answer(bytes, name) {
        Err(_) => (ProposerPhase::Failed, 0),
        Ok(None) => if remote_closed {
            (ProposerPhase::Failed, 0)
        } else {
            (ProposerPhase::Answer, 0)
        },
        Ok(Some((accepted, c))) => {
            proof {
                lemma_line_taken_within(bytes@);
            }
            if accepted {
                (ProposerPhase::Accepted, c)
            } else {
                (ProposerPhase::Refused, c)
            }
        },
    }
}

/// A line read takes no more bytes than there are.
proof fn lemma_line_taken_within(s: Seq<u8>)
    ensures
        line_decode_spec(s, MAX_PROTOCOL_NAME_LEN as nat) matches Ok(Some((_, c))) ==> c <= s.len(),
{
}

impl Connection {
    /// Reads a protocol proposed by the remote at the start of `bytes`, after the header, and
    /// answers it. Returns `Ok(None)` while more bytes are needed.
    pub fn answer_proposal(&self, bytes: &[u8]) -> (r: Result<Option<ProposalAnswer>, NegotiationError>)
        ensures
            match line_decode_spec(bytes@, MAX_PROTOCOL_NAME_LEN as nat) {
                Err(e) => r == Err::<Option<ProposalAnswer>, NegotiationError>(
                    NegotiationError::InvalidLine(e),
                ),
                Ok(None) => r matches Ok(None),
                Ok(Some((name, c))) => r matches Ok(Some(a)) && a.consumed == c
                    && select_spec(self@, name, a.protocol) && a.reply@ == line_spec(
                    if a.protocol is Some {
                        name
                    } else {
                        na_spec()
                    },
                ),
            },
    {
        let d = decode_line(bytes, MAX_PROTOCOL_NAME_LEN);
        proof {
            assert(decoded_view(d) == line_decode_spec(bytes@, MAX_PROTOCOL_NAME_LEN as nat));
        }
        match d {
            Err(e) => Err(NegotiationError::InvalidLine(e)),
            Ok(None) => Ok(None),
            Ok(Some((name, c))) => {
                let protocol = self.select_inbound_protocol(name.as_slice());
                let reply = match protocol {
                    Some(_) => encode_line(name.as_slice()),
                    None => encode_line("na".as_bytes()),
                };
                Ok(Some(ProposalAnswer { protocol, consumed: c, reply }))
            },
        }
    }
}

} // verus!

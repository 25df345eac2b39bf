use vstd::prelude::*;
use crate::config::ConfigRequestResponseIn;
use crate::event::{InboundError, NotificationsInClosedErr, NotificationsOutErr, RequestError};
use crate::framing::{
    FrameError, decode_frame, decoded_view, frame_decode_spec, frame_spec, lemma_frame_round_trip,
};
use crate::connection::request_body_spec;
use crate::leb128::{leb_decode_spec, LebDecodeError, is_leb_end, MAX_LEB_LEN};

verus! {

/// What the bytes received on a request substream give: `None` while more are awaited, else
/// the response or why there is none. `remote_closed` says that the remote closed its side.
pub open spec fn response_spec(s: Seq<u8>, max: nat, remote_closed: bool) -> Option<
    Result<Seq<u8>, RequestError>,
> {
    match frame_decode_spec(s, max) {
        Err(FrameError::TooLarge) => Some(Err(RequestError::ResponseTooLarge)),
        Err(_) => Some(Err(RequestError::InvalidResponseSize)),
        Ok(Some((p, _))) => Some(Ok(p)),
        Ok(None) => if remote_closed {
            Some(Err(RequestError::SubstreamClosed))
        } else {
            None
        },
    }
}

/// What the bytes received on an incoming request substream give: `None` while more are
/// awaited, else the request or why there is none.
pub open spec fn request_spec(s: Seq<u8>, cfg: ConfigRequestResponseIn, remote_closed: bool) -> Option<
    Result<Seq<u8>, InboundError>,
> {
    match cfg {
        ConfigRequestResponseIn::Empty => if s.len() > 0 {
            Some(Err(InboundError::InvalidRequest))
        } else if remote_closed {
            Some(Ok(Seq::empty()))
        } else {
            None
        },
        ConfigRequestResponseIn::Payload { max_size } => match frame_decode_spec(
            s,
            max_size as nat,
        ) {
            Err(_) => Some(Err(InboundError::InvalidRequest)),
            Ok(Some((p, _))) => Some(Ok(p)),
            Ok(None) => if remote_closed {
                Some(Err(InboundError::SubstreamClosed))
            } else {
                None
            },
        },
    }
}

/// What the bytes received on an outgoing notifications substream being opened give: `None`
/// while more are awaited, else the handshake of the remote or why there is none.
pub open spec fn handshake_spec(s: Seq<u8>, max: nat, remote_closed: bool) -> Option<
    Result<Seq<u8>, NotificationsOutErr>,
> {
    match frame_decode_spec(s, max) {
        Err(_) => Some(Err(NotificationsOutErr::InvalidHandshake)),
        Ok(Some((p, _))) => Some(Ok(p)),
        Ok(None) => if remote_closed {
            Some(Err(NotificationsOutErr::RefusedHandshake))
        } else {
            None
        },
    }
}

/// The notifications that the bytes `s` of an accepted incoming notifications substream
/// carry, in order, how many bytes they take, and the problem that stops the reading, if any.
pub open spec fn notifications_spec(s: Seq<u8>, max: nat) -> (
    Seq<Seq<u8>>,
    nat,
    Option<NotificationsInClosedErr>,
)
    decreases s.len(),
{
    match frame_decode_spec(s, max) {
        Err(FrameError::TooLarge) => (
            Seq::empty(),
            0,
            Some(NotificationsInClosedErr::NotificationTooLarge),
        ),
        Err(_) => (Seq::empty(), 0, Some(NotificationsInClosedErr::InvalidFrame)),
        Ok(None) => (Seq::empty(), 0, None),
        Ok(Some((p, c))) => if 0 < c <= s.len() {
            let rest = notifications_spec(s.skip(c as int), max);
            (seq![p] + rest.0, c + rest.1, rest.2)
        } else {
            (Seq::empty(), 0, None)
        },
    }
}

/// The frames carrying each of `ns`, one after the other.
pub open spec fn frames_spec(ns: Seq<Seq<u8>>) -> Seq<u8>
    decreases ns.len(),
{
    if ns.len() == 0 {
        Seq::empty()
    } else {
        frame_spec(ns[0]) + frames_spec(ns.drop_first())
    }
}

proof fn lemma_nothing_to_read(max: nat)
    ensures
        frame_decode_spec(Seq::empty(), max) == Ok::<Option<(Seq<u8>, nat)>, FrameError>(None),
{
    assert(!exists|k: int| 0 <= k < MAX_LEB_LEN && is_leb_end(Seq::<u8>::empty(), k));
    assert(leb_decode_spec(Seq::empty()) == Err::<(u64, nat), LebDecodeError>(
        LebDecodeError::Invalid,
    ));
}

/// Notifications written one after the other on a substream, each within the maximum, are
/// read back by the other side as the same notifications, in the same order, with no bytes
/// left and no problem.
pub proof fn lemma_notifications_round_trip(ns: Seq<Seq<u8>>, max: nat)
    requires
        forall|i: int| 0 <= i < ns.len() ==> ns[i].len() <= max && ns[i].len() <= u64::MAX,
    ensures
        notifications_spec(frames_spec(ns), max) == (ns, frames_spec(ns).len(), None::<
            NotificationsInClosedErr,
        >),
    decreases ns.len(),
{
    if ns.len() == 0 {
        lemma_nothing_to_read(max);
        assert(ns =~= Seq::<Seq<u8>>::empty());
    } else {
        let tail = ns.drop_first();
        let s = frames_spec(ns);
        let f = frame_spec(ns[0]);
        lemma_frame_round_trip(ns[0], frames_spec(tail), max);
        assert(s.skip(f.len() as int) =~= frames_spec(tail));
        lemma_notifications_round_trip(tail, max);
        assert(seq![ns[0]] + tail =~= ns);
    }
}

/// A request within the maximum of its protocol, sent as the requester writes it after
/// negotiation, is read back by the responder as the same request once the requester closed
/// its side; a response within the maximum, sent framed, is read back by the requester as the
/// same response.
pub proof fn lemma_request_response_round_trip(
    cfg: ConfigRequestResponseIn,
    request: Seq<u8>,
    response: Seq<u8>,
    max_response_size: nat,
    remote_closed: bool,
)
    requires
        request.len() <= cfg.spec_max_size(),
        response.len() <= max_response_size,
        response.len() <= u64::MAX,
    ensures
        request_spec(request_body_spec(cfg, request), cfg, true) == Some(
            Ok::<Seq<u8>, InboundError>(request),
        ),
        response_spec(frame_spec(response), max_response_size, remote_closed) == Some(
            Ok::<Seq<u8>, RequestError>(response),
        ),
{
    lemma_frame_round_trip(response, Seq::empty(), max_response_size);
    assert(frame_spec(response) + Seq::<u8>::empty() =~= frame_spec(response));
    match cfg {
        ConfigRequestResponseIn::Empty => {
            assert(request =~= Seq::<u8>::empty());
        },
        ConfigRequestResponseIn::Payload { max_size } => {
            lemma_frame_round_trip(request, Seq::empty(), max_size as nat);
            assert(frame_spec(request) + Seq::<u8>::empty() =~= frame_spec(request));
        },
    }
}

/// The model of a list of byte vectors.
pub open spec fn vecs_view(v: Seq<Vec<u8>>) -> Seq<Seq<u8>> {
    v.map_values(|x: Vec<u8>| x@)
}

/// The model of a decoding outcome whose success holds bytes.
pub open spec fn outcome_view<E>(r: Option<Result<Vec<u8>, E>>) -> Option<Result<Seq<u8>, E>> {
    match r {
        None => None,
        Some(Ok(p)) => Some(Ok(p@)),
        Some(Err(e)) => Some(Err(e)),
    }
}

/// Reads the response to an outgoing request from the bytes received so far.
pub fn read_response(bytes: &[u8], max_response_size: usize, remote_closed: bool) -> (r: Option<
    Result<Vec<u8>, RequestError>,
>)
    ensures
        outcome_view(r) == response_spec(bytes@, max_response_size as nat, remote_closed),
{
    match decode_frame(bytes, max_response_size) {
        Err(FrameError::TooLarge) => Some(Err(RequestError::ResponseTooLarge)),
        Err(_) => Some(Err(RequestError::InvalidResponseSize)),
        Ok(Some((p, _))) => Some(Ok(p)),
        Ok(None) => if remote_closed {
            Some(Err(RequestError::SubstreamClosed))
        } else {
            None
        },
    }
}

/// Reads an incoming request from the bytes received so far.
pub fn read_request(bytes: &[u8], cfg: ConfigRequestResponseIn, remote_closed: bool) -> (r: Option<
    Result<Vec<u8>, InboundError>,
>)
    ensures
        outcome_view(r) == request_spec(bytes@, cfg, remote_closed),
{
    match cfg {
        ConfigRequestResponseIn::Empty => {
            if bytes.len() > 0 {
                Some(Err(InboundError::InvalidRequest))
            } else if remote_closed {
                let empty: Vec<u8> = Vec::new();
                proof {
                    assert(empty@ =~= Seq::<u8>::empty());
                }
                Some(Ok(empty))
            } else {
                None
            }
        },
        ConfigRequestResponseIn::Payload { max_size } => match decode_frame(bytes, max_size) {
            Err(_) => Some(Err(InboundError::InvalidRequest)),
            Ok(Some((p, _))) => Some(Ok(p)),
            Ok(None) => if remote_closed {
                Some(Err(InboundError::SubstreamClosed))
            } else {
                None
            },
        },
    }
}

/// Reads the handshake of the remote on an outgoing notifications substream being opened.
pub fn read_handshake(bytes: &[u8], max_handshake_size: usize, remote_closed: bool) -> (r: Option<
    Result<Vec<u8>, NotificationsOutErr>,
>)
    ensures
        outcome_view(r) == handshake_spec(bytes@, max_handshake_size as nat, remote_closed),
{
    match decode_frame(bytes, max_handshake_size) {
        Err(_) => Some(Err(NotificationsOutErr::InvalidHandshake)),
        Ok(Some((p, _))) => Some(Ok(p)),
        Ok(None) => if remote_closed {
            Some(Err(NotificationsOutErr::RefusedHandshake))
        } else {
            None
        },
    }
}

/// Reads the notifications that the bytes received on an accepted incoming notifications
/// substream carry. Returns them in order, how many bytes they take, and the problem that
/// stopped the reading, if any.
pub fn read_notifications(bytes: &[u8], max_notification_size: usize) -> (r: (
    Vec<Vec<u8>>,
    usize,
    Option<NotificationsInClosedErr>,
))
    ensures
        (vecs_view(r.0@), r.1 as nat, r.2) == notifications_spec(
            bytes@,
            max_notification_size as nat,
        ),
{
    let max = max_notification_size;
    let mut out: Vec<Vec<u8>> = Vec::new();
    let mut pos: usize = 0;
    proof {
        assert(bytes@.skip(0) =~= bytes@);
        let rest = notifications_spec(bytes@, max as nat);
        assert(vecs_view(out@) + rest.0 =~= rest.0);
    }
    loop
        invariant
            max == max_notification_size,
            pos <= bytes@.len(),
            ({
                let rest = notifications_spec(bytes@.skip(pos as int), max as nat);
                notifications_spec(bytes@, max as nat) == (
                    vecs_view(out@) + rest.0,
                    (pos + rest.1) as nat,
                    rest.2,
                )
            }),
        decreases bytes@.len() - pos,
    {
        let tail = vstd::slice::slice_subrange(bytes, pos, bytes.len());
        assert(tail@ =~= bytes@.skip(pos as int));
        let ghost rest = notifications_spec(tail@, max as nat);
        let d = decode_frame(tail, max);
        proof {
            assert(decoded_view(d) == frame_decode_spec(tail@, max as nat));
        }
        match d {
            Err(FrameError::TooLarge) => {
                proof {
                    assert(vecs_view(out@) + rest.0 =~= vecs_view(out@));
                }
                return (out, pos, Some(NotificationsInClosedErr::NotificationTooLarge));
            },
            Err(_) => {
                proof {
                    assert(vecs_view(out@) + rest.0 =~= vecs_view(out@));
                }
                return (out, pos, Some(NotificationsInClosedErr::InvalidFrame));
            },
            Ok(None) => {
                proof {
                    assert(vecs_view(out@) + rest.0 =~= vecs_view(out@));
                }
                return (out, pos, None);
            },
            Ok(Some((p, c))) => {
                if c == 0 || c > tail.len() {
                    proof {
                        assert(vecs_view(out@) + rest.0 =~= vecs_view(out@));
                    }
                    return (out, pos, None);
                }
                let ghost old_out = vecs_view(out@);
                let ghost pv = p@;
                out.push(p);
                proof {
                    assert(tail@.skip(c as int) =~= bytes@.skip(pos + c));
                    let rest2 = notifications_spec(bytes@.skip(pos + c), max as nat);
                    assert(rest == (seq![pv] + rest2.0, (c + rest2.1) as nat, rest2.2));
                    assert(vecs_view(out@) =~= old_out.push(pv));
                    assert(old_out + rest.0 =~= vecs_view(out@) + rest2.0);
                }
                pos = pos + c;
            },
        }
    }
}

} // verus!

use vstd::prelude::*;
use crate::yamux_header::{FLAG_ACK, FLAG_FIN, FLAG_RST, FLAG_SYN, FrameType, Header};

verus! {

/// Initial flow-control window of every substream, in each direction.
pub const INITIAL_WINDOW: u32 = 262144;

/// Credit is given back to the remote once more than this many received bytes were consumed.
pub const CREDIT_THRESHOLD: u32 = 131072;

/// Flow-control and closing state of a substream of the multiplexer.
#[derive(Debug, Clone, Copy, PartialEq, Eq, Structural)]
pub struct YamuxSubstream {
    pub id: u32,
    /// The remote opened the substream.
    pub inbound: bool,
    /// Bytes that the remote may still send before it gets more credit.
    pub recv_window: u32,
    /// Received bytes already consumed whose credit has not been given back yet.
    pub unacked: u32,
    /// Bytes that the local side may still send.
    pub send_window: u64,
    /// The remote closed its writing side.
    pub remote_closed: bool,
    /// The substream was reset, by either side.
    pub reset: bool,
}

/// What a frame header means for the local side.
#[derive(Debug, Clone, Copy, PartialEq, Eq, Structural)]
pub enum Outcome {
    /// The frame concerns a live substream; `data` bytes of payload follow for it.
    Substream { id: u32, opened: bool, data: u32, fin: bool, reset: bool },
    /// The remote opened a substream past the limit: it must be reset, and the `discard` bytes
    /// of payload that follow skipped.
    Rejected { id: u32, discard: u32 },
    /// The frame concerns a substream that no longer exists: the `discard` bytes of payload
    /// that follow are skipped.
    Unknown { discard: u32 },
    /// The remote pinged: a ping frame with the ACK flag and this value must be sent back.
    Pong { opaque: u32 },
    /// Nothing to do.
    Ignored,
    /// The remote will not open new substreams.
    GoAway,
}

/// Protocol violation of the remote, fatal to the connection.
#[derive(Debug, Clone, Copy, PartialEq, Eq, Structural)]
pub enum YamuxError {
    /// The remote opened a substream whose identifier is in use.
    DuplicateSyn,
    /// The remote acknowledged a substream that does not exist.
    UnknownAck,
    /// The remote sent more data than the window of the substream allows.
    WindowOverrun,
    /// The remote opened a substream with an identifier that is zero or of the local side.
    InvalidStreamId,
}

/// The model of a [`Yamux`].
pub struct YamuxView {
    pub is_dialer: bool,
    pub max_inbound: usize,
    /// Number of substreams opened by the remote that were not reset.
    pub num_inbound: usize,
    pub substreams: Seq<YamuxSubstream>,
    pub go_away_received: bool,
}

/// Receiving side of the multiplexer: decides what each incoming frame header means, and
/// gives credit back as received data is consumed.
pub struct Yamux {
    is_dialer: bool,
    max_inbound: usize,
    num_inbound: usize,
    substreams: Vec<YamuxSubstream>,
    go_away_received: bool,
}

impl View for Yamux {
    type V = YamuxView;

    closed spec fn view(&self) -> YamuxView {
        YamuxView {
            is_dialer: self.is_dialer,
            max_inbound: self.max_inbound,
            num_inbound: self.num_inbound,
            substreams: self.substreams@,
            go_away_received: self.go_away_received,
        }
    }
}

/// Identifiers are unique, windows and pending credit stay within the initial window, and
/// inbound substreams stay within the limit.
pub open spec fn yamux_wf(m: YamuxView) -> bool {
    &&& forall|i: int, j: int|
        0 <= i < j < m.substreams.len() ==> m.substreams[i].id != m.substreams[j].id
    &&& forall|i: int|
        0 <= i < m.substreams.len() ==> m.substreams[i].recv_window as int
            + m.substreams[i].unacked as int <= INITIAL_WINDOW as int
    &&& m.num_inbound <= m.max_inbound
}

/// The flag `f` is set in `flags`.
pub open spec fn has_flag(flags: u16, f: u16) -> bool {
    flags & f != 0
}

/// Index of the substream `id`, if there is one.
pub open spec fn find_spec(subs: Seq<YamuxSubstream>, id: u32) -> Option<int> {
    if exists|i: int| 0 <= i < subs.len() && subs[i].id == id {
        Some(choose|i: int| 0 <= i < subs.len() && subs[i].id == id)
    } else {
        None
    }
}

/// The remote may open a substream with identifier `id`: not zero, and odd when the local
/// side listened, even when it dialed.
pub open spec fn remote_id_valid(is_dialer: bool, id: u32) -> bool {
    id != 0 && (id % 2 == 0) == is_dialer
}

/// `m` with other substreams.
pub open spec fn with_substreams(m: YamuxView, subs: Seq<YamuxSubstream>) -> YamuxView {
    YamuxView { substreams: subs, ..m }
}

/// Credit that a window update frame of header `h` gives to the local side.
pub open spec fn credit_of(h: Header) -> u64 {
    if h.frame_type == FrameType::WindowUpdate {
        h.length as u64
    } else {
        0
    }
}

/// Payload that follows the header `h`.
pub open spec fn data_of(h: Header) -> u32 {
    if h.frame_type == FrameType::Data {
        h.length
    } else {
        0
    }
}

/// Send window after `credit` more bytes of credit, saturating at the largest value.
pub open spec fn add_credit(w: u64, credit: u64) -> u64 {
    if w as int + credit as int > u64::MAX as int {
        u64::MAX
    } else {
        (w + credit) as u64
    }
}

/// What receiving the header `h` does, and what it means.
pub open spec fn on_header_spec(m: YamuxView, h: Header) -> (YamuxView, Result<Outcome, YamuxError>) {
    let data = data_of(h);
    let fin = has_flag(h.flags, FLAG_FIN);
    let rst = has_flag(h.flags, FLAG_RST);
    match h.frame_type {
        FrameType::Ping => if has_flag(h.flags, FLAG_SYN) {
            (m, Ok(Outcome::Pong { opaque: h.length }))
        } else {
            (m, Ok(Outcome::Ignored))
        },
        FrameType::GoAway => (YamuxView { go_away_received: true, ..m }, Ok(Outcome::GoAway)),
        _ => if has_flag(h.flags, FLAG_SYN) {
            if find_spec(m.substreams, h.stream_id) is Some {
                (m, Err(YamuxError::DuplicateSyn))
            } else if !remote_id_valid(m.is_dialer, h.stream_id) {
                (m, Err(YamuxError::InvalidStreamId))
            } else if m.num_inbound >= m.max_inbound {
                (m, Ok(Outcome::Rejected { id: h.stream_id, discard: data }))
            } else if data > INITIAL_WINDOW {
                (m, Err(YamuxError::WindowOverrun))
            } else {
                let e = YamuxSubstream {
                    id: h.stream_id,
                    inbound: true,
                    recv_window: (INITIAL_WINDOW - data) as u32,
                    unacked: 0,
                    send_window: add_credit(INITIAL_WINDOW as u64, credit_of(h)),
                    remote_closed: fin,
                    reset: rst,
                };
                (
                    YamuxView {
                        substreams: m.substreams.push(e),
                        num_inbound: if rst {
                            m.num_inbound
                        } else {
                            (m.num_inbound + 1) as usize
                        },
                        ..m
                    },
                    Ok(
                        Outcome::Substream {
                            id: h.stream_id,
                            opened: true,
                            data: data,
                            fin: fin,
                            reset: rst,
                        },
                    ),
                )
            }
        } else {
            match find_spec(m.substreams, h.stream_id) {
                None => if has_flag(h.flags, FLAG_ACK) {
                    (m, Err(YamuxError::UnknownAck))
                } else {
                    (m, Ok(Outcome::Unknown { discard: data }))
                },
                Some(i) => {
                    let e = m.substreams[i];
                    if e.reset {
                        (m, Ok(Outcome::Unknown { discard: data }))
                    } else if data > e.recv_window {
                        (m, Err(YamuxError::WindowOverrun))
                    } else {
                        let e2 = YamuxSubstream {
                            recv_window: (e.recv_window - data) as u32,
                            send_window: add_credit(e.send_window, credit_of(h)),
                            remote_closed: e.remote_closed || fin,
                            reset: rst,
                            ..e
                        };
                        (
                            YamuxView {
                                substreams: m.substreams.update(i, e2),
                                num_inbound: if rst && e.inbound && m.num_inbound > 0 {
                                    (m.num_inbound - 1) as usize
                                } else {
                                    m.num_inbound
                                },
                                ..m
                            },
                            Ok(
                                Outcome::Substream {
                                    id: h.stream_id,
                                    opened: false,
                                    data: data,
                                    fin: fin,
                                    reset: rst,
                                },
                            ),
                        )
                    }
                },
            }
        },
    }
}

/// What consuming `n` received bytes of the substream at index `i` does, and the window update
/// frame that gives the credit back once more than the threshold is pending.
pub open spec fn consume_spec(m: YamuxView, i: int, n: u32) -> (YamuxView, Option<Header>) {
    let e = m.substreams[i];
    let pending = e.unacked + n;
    if pending > CREDIT_THRESHOLD {
        (
            with_substreams(
                m,
                m.substreams.update(
                    i,
                    YamuxSubstream { recv_window: (e.recv_window + pending) as u32, unacked: 0, ..e },
                ),
            ),
            Some(
                Header {
                    frame_type: FrameType::WindowUpdate,
                    flags: 0,
                    stream_id: e.id,
                    length: pending as u32,
                },
            ),
        )
    } else {
        (
            with_substreams(
                m,
                m.substreams.update(i, YamuxSubstream { unacked: pending as u32, ..e }),
            ),
            None,
        )
    }
}

/// Bytes of the substream at index `i` that were received and not consumed yet.
pub open spec fn unconsumed(m: YamuxView, i: int) -> int {
    INITIAL_WINDOW as int - m.substreams[i].recv_window as int - m.substreams[i].unacked as int
}

/// Credit is given back only for consumed bytes, and never lets the remote send more than the
/// initial window ahead of what was consumed.
pub proof fn lemma_credit_bounded(m: YamuxView, i: int, n: u32)
    requires
        yamux_wf(m),
        0 <= i < m.substreams.len(),
        n <= unconsumed(m, i),
    ensures
        yamux_wf(consume_spec(m, i, n).0),
        unconsumed(consume_spec(m, i, n).0, i) == unconsumed(m, i) - n,
        consume_spec(m, i, n).0.substreams[i].recv_window <= INITIAL_WINDOW,
{
    let r = consume_spec(m, i, n).0;
    assert forall|a: int, b: int|
        0 <= a < b < r.substreams.len() implies r.substreams[a].id != r.substreams[b].id by {
        assert(r.substreams[a].id == m.substreams[a].id);
        assert(r.substreams[b].id == m.substreams[b].id);
    }
}

impl Yamux {
    /// Builds the receiving side of the multiplexer of a connection.
    pub fn new(is_dialer: bool, max_inbound: usize) -> (r: Self)
        ensures
            r@.is_dialer == is_dialer,
            r@.max_inbound == max_inbound,
            r@.num_inbound == 0,
            r@.substreams.len() == 0,
            !r@.go_away_received,
            yamux_wf(r@),
    {
        Yamux {
            is_dialer,
            max_inbound,
            num_inbound: 0,
            substreams: Vec::new(),
            go_away_received: false,
        }
    }

    /// Records a substream that the local side opened.
    pub fn add_outbound(&mut self, id: u32) -> (r: bool)
        requires
            yamux_wf(old(self)@),
        ensures
            yamux_wf(final(self)@),
            r == (find_spec(old(self)@.substreams, id) is None),
            r ==> final(self)@ == with_substreams(
                old(self)@,
                old(self)@.substreams.push(
                    YamuxSubstream {
                        id,
                        inbound: false,
                        recv_window: INITIAL_WINDOW,
                        unacked: 0,
                        send_window: INITIAL_WINDOW as u64,
                        remote_closed: false,
                        reset: false,
                    },
                ),
            ),
            !r ==> final(self)@ == old(self)@,
    {
        match self.find(id) {
            Some(_) => false,
            None => {
                self.substreams.push(
                    YamuxSubstream {
                        id,
                        inbound: false,
                        recv_window: INITIAL_WINDOW,
                        unacked: 0,
                        send_window: INITIAL_WINDOW as u64,
                        remote_closed: false,
                        reset: false,
                    },
                );
                true
            },
        }
    }

    /// Index of the substream `id`, if there is one.
    pub fn find(&self, id: u32) -> (r: Option<usize>)
        requires
            yamux_wf(self@),
        ensures
            r is Some <==> find_spec(self@.substreams, id) is Some,
            r matches Some(k) ==> find_spec(self@.substreams, id) == Some(k as int) && k
                < self@.substreams.len() && self@.substreams[k as int].id == id,
    {
        let mut i: usize = 0;
        while i < self.substreams.len()
            invariant
                yamux_wf(self@),
                i <= self.substreams@.len(),
                forall|j: int| 0 <= j < i ==> self.substreams@[j].id != id,
            decreases self.substreams@.len() - i,
        {
            if self.substreams[i].id == id {
                proof {
                    let c = choose|c: int|
                        0 <= c < self.substreams@.len() && self.substreams@[c].id == id;
                    assert(c == i) by {
                        if c < i {
                            assert(self@.substreams[c].id != self@.substreams[i as int].id);
                        } else if c > i {
                            assert(self@.substreams[i as int].id != self@.substreams[c].id);
                        }
                    }
                }
                return Some(i);
            }
            i = i + 1;
        }
        None
    }

    /// Substream at index `i`.
    pub fn get(&self, i: usize) -> (r: YamuxSubstream)
        requires
            i < self@.substreams.len(),
        ensures
            r == self@.substreams[i as int],
    {
        self.substreams[i]
    }

    /// Returns true if the remote said that it will open no new substream.
    pub fn go_away_received(&self) -> (r: bool)
        ensures
            r == self@.go_away_received,
    {
        self.go_away_received
    }

    /// Number of substreams opened by the remote that were not reset.
    pub fn num_inbound(&self) -> (r: usize)
        ensures
            r == self@.num_inbound,
    {
        self.num_inbound
    }

    /// Decides what the incoming frame header `h` means, and records its effect.
    pub fn on_header(&mut self, h: &Header) -> (r: Result<Outcome, YamuxError>)
        requires
            yamux_wf(old(self)@),
        ensures
            yamux_wf(final(self)@),
            final(self)@ == on_header_spec(old(self)@, *h).0,
            r == on_header_spec(old(self)@, *h).1,
    {
        let data: u32 = if h.frame_type == FrameType::Data { h.length } else { 0 };
        let credit: u64 = if h.frame_type == FrameType::WindowUpdate { h.length as u64 } else { 0 };
        let fin = h.flags & FLAG_FIN != 0;
        let rst = h.flags & FLAG_RST != 0;
        match h.frame_type {
            FrameType::Ping => {
                if h.flags & FLAG_SYN != 0 {
                    return Ok(Outcome::Pong { opaque: h.length });
                } else {
                    return Ok(Outcome::Ignored);
                }
            },
            FrameType::GoAway => {
                self.go_away_received = true;
                return Ok(Outcome::GoAway);
            },
            _ => {},
        }
        if h.flags & FLAG_SYN != 0 {
            if self.find(h.stream_id).is_some() {
                return Err(YamuxError::DuplicateSyn);
            }
            if h.stream_id == 0 || (h.stream_id % 2 == 0) != self.is_dialer {
                return Err(YamuxError::InvalidStreamId);
            }
            if self.num_inbound >= self.max_inbound {
                return Ok(Outcome::Rejected { id: h.stream_id, discard: data });
            }
            if data > INITIAL_WINDOW {
                return Err(YamuxError::WindowOverrun);
            }
            let send_window = if credit > u64::MAX - INITIAL_WINDOW as u64 {
                u64::MAX
            } else {
                INITIAL_WINDOW as u64 + credit
            };
            self.substreams.push(
                YamuxSubstream {
                    id: h.stream_id,
                    inbound: true,
                    recv_window: INITIAL_WINDOW - data,
                    unacked: 0,
                    send_window,
                    remote_closed: fin,
                    reset: rst,
                },
            );
            if !rst {
                self.num_inbound = self.num_inbound + 1;
            }
            proof {
                let m = self@;
                assert forall|a: int, b: int|
                    0 <= a < b < m.substreams.len() implies m.substreams[a].id
                    != m.substreams[b].id by {
                    if b == m.substreams.len() - 1 {
                        assert(old(self)@.substreams[a].id != h.stream_id);
                    }
                }
            }
            return Ok(Outcome::Substream { id: h.stream_id, opened: true, data, fin, reset: rst });
        }
        match self.find(h.stream_id) {
            None => {
                if h.flags & FLAG_ACK != 0 {
                    Err(YamuxError::UnknownAck)
                } else {
                    Ok(Outcome::Unknown { discard: data })
                }
            },
            Some(i) => {
                let e = self.substreams[i];
                if e.reset {
                    return Ok(Outcome::Unknown { discard: data });
                }
                if data > e.recv_window {
                    return Err(YamuxError::WindowOverrun);
                }
                let send_window = if credit > u64::MAX - e.send_window {
                    u64::MAX
                } else {
                    e.send_window + credit
                };
                let e2 = YamuxSubstream {
                    recv_window: e.recv_window - data,
                    send_window,
                    remote_closed: e.remote_closed || fin,
                    reset: rst,
                    ..e
                };
                self.substreams.set(i, e2);
                if rst && e.inbound && self.num_inbound > 0 {
                    self.num_inbound = self.num_inbound - 1;
                }
                proof {
                    let m = self@;
                    assert forall|a: int, b: int|
                        0 <= a < b < m.substreams.len() implies m.substreams[a].id
                        != m.substreams[b].id by {
                        assert(m.substreams[a].id == old(self)@.substreams[a].id);
                        assert(m.substreams[b].id == old(self)@.substreams[b].id);
                    }
                }
                Ok(Outcome::Substream { id: h.stream_id, opened: false, data, fin, reset: rst })
            },
        }
    }

    /// Records that `n` received bytes of the substream at index `i` were consumed. Returns
    /// the window update frame to send, once more than the threshold of credit is pending.
    pub fn consume(&mut self, i: usize, n: u32) -> (r: Option<Header>)
        requires
            yamux_wf(old(self)@),
            i < old(self)@.substreams.len(),
            n <= unconsumed(old(self)@, i as int),
        ensures
            yamux_wf(final(self)@),
            final(self)@ == consume_spec(old(self)@, i as int, n).0,
            r == consume_spec(old(self)@, i as int, n).1,
    {
        proof {
            lemma_credit_bounded(self@, i as int, n);
        }
        let e = self.substreams[i];
        let pending: u32 = e.unacked + n;
        if pending > CREDIT_THRESHOLD {
            self.substreams.set(
                i,
                YamuxSubstream { recv_window: e.recv_window + pending, unacked: 0, ..e },
            );
            Some(
                Header {
                    frame_type: FrameType::WindowUpdate,
                    flags: 0,
                    stream_id: e.id,
                    length: pending,
                },
            )
        } else {
            self.substreams.set(i, YamuxSubstream { unacked: pending, ..e });
            None
        }
    }
}

} // verus!

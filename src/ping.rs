use vstd::prelude::*;
use crate::framing::{append_bytes, copy_range};

verus! {

/// Length in bytes of a ping payload.
pub const PING_PAYLOAD_LEN: usize = 32;

/// Outcome of an outgoing ping.
#[derive(Debug, Clone, Copy, PartialEq, Eq, Structural)]
pub enum PingOutcome {
    /// The remote echoed the payload.
    Success,
    /// The remote echoed something else, reset the substream, or did not answer in time.
    Failed,
}

/// The model of a [`PingOut`].
pub struct PingOutView {
    /// When the next ping is due, while none is in flight.
    pub next_ping: u64,
    /// Payload and deadline of the ping in flight, if any.
    pub in_flight: Option<(Seq<u8>, u64)>,
    /// Echo bytes received so far for the ping in flight.
    pub received: Seq<u8>,
    pub interval: u64,
    pub timeout: u64,
}

/// Outgoing pings of a connection: when to send one, and whether the echo came back in time.
/// Time is a number of units since an arbitrary origin, chosen by the caller.
pub struct PingOut {
    next_ping: u64,
    in_flight: Option<(Vec<u8>, u64)>,
    received: Vec<u8>,
    interval: u64,
    timeout: u64,
}

impl View for PingOut {
    type V = PingOutView;

    closed spec fn view(&self) -> PingOutView {
        PingOutView {
            next_ping: self.next_ping,
            in_flight: match self.in_flight {
                Some((p, d)) => Some((p@, d)),
                None => None,
            },
            received: self.received@,
            interval: self.interval,
            timeout: self.timeout,
        }
    }
}

/// `a + b`, or the largest value if the sum does not fit.
pub open spec fn sat_add(a: u64, b: u64) -> u64 {
    if a as int + b as int > u64::MAX as int {
        u64::MAX
    } else {
        (a + b) as u64
    }
}

/// The ping in flight has its full payload length, and the echo received so far is shorter.
pub open spec fn ping_wf(p: PingOutView) -> bool {
    match p.in_flight {
        Some((payload, _)) => payload.len() == PING_PAYLOAD_LEN && p.received.len()
            < PING_PAYLOAD_LEN,
        None => p.received.len() == 0,
    }
}

/// `p` with no ping in flight, the next one due `interval` after `now`.
pub open spec fn settled(p: PingOutView, now: u64) -> PingOutView {
    PingOutView {
        next_ping: sat_add(now, p.interval),
        in_flight: None,
        received: Seq::empty(),
        ..p
    }
}

/// What echo bytes received at `now` do: they complete the echo of the ping in flight up to
/// its length, and a complete echo settles the ping, successful if it equals the payload.
/// Returns the new state, how many bytes were taken, and the outcome if the ping settled.
pub open spec fn on_echo_spec(p: PingOutView, now: u64, bytes: Seq<u8>) -> (
    PingOutView,
    nat,
    Option<PingOutcome>,
) {
    match p.in_flight {
        None => (p, 0, None),
        Some((payload, _)) => {
            let want = PING_PAYLOAD_LEN - p.received.len();
            if bytes.len() < want {
                (PingOutView { received: p.received + bytes, ..p }, bytes.len(), None)
            } else {
                let echo = p.received + bytes.take(want);
                (
                    settled(p, now),
                    want as nat,
                    Some(
                        if echo == payload {
                            PingOutcome::Success
                        } else {
                            PingOutcome::Failed
                        },
                    ),
                )
            }
        },
    }
}

/// What time `now` does: a ping in flight past its deadline fails.
pub open spec fn on_time_spec(p: PingOutView, now: u64) -> (PingOutView, Option<PingOutcome>) {
    match p.in_flight {
        Some((_, deadline)) => if now > deadline {
            (settled(p, now), Some(PingOutcome::Failed))
        } else {
            (p, None)
        },
        None => (p, None),
    }
}

/// When the caller must next wake the pings up: the deadline of the ping in flight, else when
/// the next one is due.
pub open spec fn wake_up_spec(p: PingOutView) -> u64 {
    match p.in_flight {
        Some((_, deadline)) => deadline,
        None => p.next_ping,
    }
}

impl PingOut {
    /// Builds the outgoing pings of a connection: the first is due at `first_ping`, each
    /// next one `interval` after the previous one settled, and each fails if its echo is not
    /// back within `timeout`.
    pub fn new(first_ping: u64, interval: u64, timeout: u64) -> (r: Self)
        ensures
            r@.next_ping == first_ping,
            r@.in_flight is None,
            r@.received.len() == 0,
            r@.interval == interval,
            r@.timeout == timeout,
            ping_wf(r@),
    {
        PingOut { next_ping: first_ping, in_flight: None, received: Vec::new(), interval, timeout }
    }

    /// When the caller must next wake the pings up.
    pub fn wake_up(&self) -> (r: u64)
        ensures
            r == wake_up_spec(self@),
    {
        match &self.in_flight {
            Some((_, deadline)) => *deadline,
            None => self.next_ping,
        }
    }

    /// Returns true if a ping is in flight.
    pub fn is_in_flight(&self) -> (r: bool)
        ensures
            r == (self@.in_flight is Some),
    {
        self.in_flight.is_some()
    }

    /// Starts a ping with `payload` if none is in flight and one is due at `now`. Returns the
    /// bytes to send.
    pub fn start_if_due(&mut self, now: u64, payload: Vec<u8>) -> (r: Option<Vec<u8>>)
        requires
            ping_wf(old(self)@),
            payload@.len() == PING_PAYLOAD_LEN,
        ensures
            ping_wf(final(self)@),
            old(self)@.in_flight is None && now >= old(self)@.next_ping ==> r is Some && r.unwrap()@
                == payload@ && final(self)@ == (PingOutView {
                in_flight: Some((payload@, sat_add(now, old(self)@.timeout))),
                received: Seq::empty(),
                ..old(self)@
            }),
            !(old(self)@.in_flight is None && now >= old(self)@.next_ping) ==> r is None
                && final(self)@ == old(self)@,
    {
        if self.in_flight.is_some() || now < self.next_ping {
            return None;
        }
        let deadline = if self.timeout > u64::MAX - now {
            u64::MAX
        } else {
            now + self.timeout
        };
        let mut sent: Vec<u8> = Vec::new();
        append_bytes(&mut sent, payload.as_slice());
        proof {
            assert(sent@ =~= payload@);
            assert(self.received@ =~= Seq::<u8>::empty());
        }
        self.in_flight = Some((payload, deadline));
        Some(sent)
    }

    /// Takes echo bytes received at `now`. Returns how many bytes were taken, and the outcome
    /// if the ping in flight settled.
    pub fn on_echo(&mut self, now: u64, bytes: &[u8]) -> (r: (usize, Option<PingOutcome>))
        requires
            ping_wf(old(self)@),
        ensures
            ping_wf(final(self)@),
            (final(self)@, r.0 as nat, r.1) == on_echo_spec(old(self)@, now, bytes@),
    {
        let want: usize = PING_PAYLOAD_LEN - self.received.len();
        let payload_ok: bool;
        match &self.in_flight {
            None => {
                return (0, None);
            },
            Some((payload, _)) => {
                if bytes.len() < want {
                    append_bytes(&mut self.received, bytes);
                    return (bytes.len(), None);
                }
                let head = copy_range(bytes, 0, want);
                append_bytes(&mut self.received, head.as_slice());
                proof {
                    assert(head@ =~= bytes@.take(want as int));
                }
                payload_ok = crate::connection::bytes_eq(self.received.as_slice(), payload.as_slice());
            },
        }
        self.settle(now);
        (
            want,
            Some(
                if payload_ok {
                    PingOutcome::Success
                } else {
                    PingOutcome::Failed
                },
            ),
        )
    }

    /// Takes the passing of time up to `now`. Returns `Failed` if the ping in flight ran past
    /// its deadline.
    pub fn on_time(&mut self, now: u64) -> (r: Option<PingOutcome>)
        requires
            ping_wf(old(self)@),
        ensures
            ping_wf(final(self)@),
            (final(self)@, r) == on_time_spec(old(self)@, now),
    {
        let late = match &self.in_flight {
            Some((_, deadline)) => now > *deadline,
            None => false,
        };
        if late {
            self.settle(now);
            Some(PingOutcome::Failed)
        } else {
            None
        }
    }

    /// Takes the reset of the ping substream at `now`: the ping in flight, if any, fails.
    pub fn on_reset(&mut self, now: u64) -> (r: Option<PingOutcome>)
        requires
            ping_wf(old(self)@),
        ensures
            ping_wf(final(self)@),
            old(self)@.in_flight is Some ==> r == Some(PingOutcome::Failed) && final(self)@
                == settled(old(self)@, now),
            old(self)@.in_flight is None ==> r is None && final(self)@ == old(self)@,
    {
        if self.in_flight.is_some() {
            self.settle(now);
            Some(PingOutcome::Failed)
        } else {
            None
        }
    }

    fn settle(&mut self, now: u64)
        ensures
            final(self)@ == settled(old(self)@, now),
    {
        self.next_ping = if self.interval > u64::MAX - now {
            u64::MAX
        } else {
            now + self.interval
        };
        self.in_flight = None;
        self.received = Vec::new();
        proof {
            assert(self@.received =~= Seq::<u8>::empty());
        }
    }
}

/// Number of bytes of `len` received ping bytes that are echoed: whole payloads only.
pub open spec fn echoed_len(len: nat) -> nat {
    (len / (PING_PAYLOAD_LEN as nat)) * (PING_PAYLOAD_LEN as nat)
}

/// Answers incoming pings: echoes every whole payload at the start of `bytes`. Returns the
/// bytes to send back, which are also the bytes taken.
pub fn echo_pings(bytes: &[u8]) -> (r: Vec<u8>)
    ensures
        r@ == bytes@.take(echoed_len(bytes@.len()) as int),
        r@.len() <= bytes@.len(),
{
    let n: usize = bytes.len() / PING_PAYLOAD_LEN * PING_PAYLOAD_LEN;
    assert(n <= bytes.len()) by (nonlinear_arith)
        requires n == bytes.len() / 32 * 32;
    let r = copy_range(bytes, 0, n);
    proof {
        assert(r@ =~= bytes@.take(echoed_len(bytes@.len()) as int));
    }
    r
}

} // verus!

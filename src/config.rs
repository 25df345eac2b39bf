use vstd::prelude::*;
use core::time::Duration;

verus! {

/// Relies on `Duration`'s `Clone`, which copies the value.
pub assume_specification[ <Duration as Clone>::clone ](d: &Duration) -> (r: Duration)
    ensures
        r == *d,
;

/// Configuration of an established connection.
#[derive(Debug, Clone)]
pub struct Config<TNow> {
    /// Maximum number of substreams that the remote can have simultaneously opened.
    pub max_inbound_substreams: usize,
    /// List of request-response protocols supported for incoming substreams.
    pub request_protocols: Vec<ConfigRequestResponse>,
    /// List of notifications protocols supported for incoming substreams.
    pub notifications_protocols: Vec<ConfigNotifications>,
    /// Name of the ping protocol on the network.
    pub ping_protocol: String,
    /// When to start the first outgoing ping.
    pub first_out_ping: TNow,
    /// Interval between two consecutive outgoing ping attempts.
    pub ping_interval: Duration,
    /// Time after which an outgoing ping is considered failed.
    pub ping_timeout: Duration,
    /// Entropy used for the randomness specific to this connection.
    pub randomness_seed: [u8; 32],
}

/// Configuration for a request-response protocol.
#[derive(Debug, Clone)]
pub struct ConfigRequestResponse {
    /// Name of the protocol transferred on the wire.
    pub name: String,
    /// Configuration of the requests sent through this protocol, in both directions.
    pub inbound_config: ConfigRequestResponseIn,
    /// Maximum size, in bytes, of a response that can be received.
    pub max_response_size: usize,
    /// If true, incoming substreams are allowed to negotiate this protocol.
    pub inbound_allowed: bool,
}

/// Shape of the requests of a request-response protocol.
#[derive(Debug, Clone, Copy, PartialEq, Eq, Structural)]
pub enum ConfigRequestResponseIn {
    /// Request must be completely empty, not even a length prefix.
    Empty,
    /// Request must contain a length prefix plus a potentially empty payload.
    Payload {
        /// Maximum allowed size for the payload in bytes.
        max_size: usize,
    },
}

impl ConfigRequestResponseIn {
    /// Maximum size of a request in the model: zero for `Empty`.
    pub open spec fn spec_max_size(self) -> nat {
        match self {
            ConfigRequestResponseIn::Empty => 0,
            ConfigRequestResponseIn::Payload { max_size } => max_size as nat,
        }
    }

    /// Returns the maximum allowed size of a request.
    ///
    /// Returns `0` for [`ConfigRequestResponseIn::Empty`].
    pub fn max_size(&self) -> (r: usize)
        ensures
            r == self.spec_max_size(),
    {
        match self {
            ConfigRequestResponseIn::Empty => 0,
            ConfigRequestResponseIn::Payload { max_size } => *max_size,
        }
    }
}

/// Configuration for a notifications protocol.
#[derive(Debug, Clone)]
pub struct ConfigNotifications {
    /// Name of the protocol transferred on the wire.
    pub name: String,
    /// Maximum size, in bytes, of the handshake that can be received.
    pub max_handshake_size: usize,
    /// Maximum size, in bytes, of a notification that can be received.
    pub max_notification_size: usize,
}

} // verus!

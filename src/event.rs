use vstd::prelude::*;
use crate::substream_id::SubstreamId;

verus! {

/// Error on an incoming substream.
#[derive(Debug, Clone, Copy, PartialEq, Eq, Structural)]
pub enum InboundError {
    /// No protocol could be agreed upon with the remote.
    NegotiationError,
    /// The remote closed or reset the substream before negotiation ended.
    SubstreamClosed,
    /// An incoming request was larger than the protocol allows, or badly framed.
    InvalidRequest,
}

/// Error that ends an outgoing request.
#[derive(Debug, Clone, Copy, PartialEq, Eq, Structural)]
pub enum RequestError {
    /// The deadline passed to the request went by before a response arrived.
    Timeout,
    /// The remote refused the protocol of the request.
    ProtocolNotAvailable,
    /// The remote closed the substream before the response was complete.
    SubstreamClosed,
    /// The remote reset the substream.
    SubstreamReset,
    /// The response is larger than the protocol's `max_response_size`.
    ResponseTooLarge,
    /// The length prefix of the response is malformed.
    InvalidResponseSize,
}

/// Error that ends the opening of an outgoing notifications substream.
#[derive(Debug, Clone, Copy, PartialEq, Eq, Structural)]
pub enum NotificationsOutErr {
    /// The deadline went by before the remote sent its handshake.
    Timeout,
    /// The remote refused the protocol.
    ProtocolNotAvailable,
    /// The remote refused the substream.
    RefusedHandshake,
    /// The remote reset the substream.
    SubstreamReset,
    /// The handshake of the remote is larger than the protocol allows, or badly framed.
    InvalidHandshake,
}

/// Problem that closed an incoming notifications substream.
#[derive(Debug, Clone, Copy, PartialEq, Eq, Structural)]
pub enum NotificationsInClosedErr {
    /// The remote reset the substream.
    SubstreamReset,
    /// A notification is larger than the protocol's `max_notification_size`.
    NotificationTooLarge,
    /// The length prefix of a notification is malformed.
    InvalidFrame,
}

/// Error returned when answering an incoming request.
#[derive(Debug, Clone, Copy, PartialEq, Eq, Structural)]
pub enum RespondInRequestError {
    /// The substream of the request no longer exists.
    SubstreamClosed,
}

/// Error returned when starting a request.
#[derive(Debug, Clone, Copy, PartialEq, Eq, Structural)]
pub enum AddRequestError {
    /// Size of the request is over maximum allowed by the protocol.
    RequestTooLarge,
    /// The connection no longer allows opening substreams.
    NewOutboundSubstreamsForbidden,
}

/// Event that happened on the connection.
#[derive(Debug)]
pub enum Event<TRqUd, TNotifUd> {
    /// Opening new substreams is now forbidden; existing substreams go on.
    NewOutboundSubstreamsForbidden,
    /// Received an incoming substream, but this substream has produced an error.
    InboundError(InboundError),
    /// Received a request in the context of a request-response protocol.
    RequestIn {
        /// Identifier of the request. Needs to be provided back when answering the request.
        id: SubstreamId,
        /// Index of the request-response protocol in the configuration.
        protocol_index: usize,
        /// Bytes of the request.
        request: Vec<u8>,
    },
    /// Received a response to a previously emitted request.
    Response {
        /// Bytes of the response, or what went wrong.
        response: Result<Vec<u8>, RequestError>,
        /// Identifier of the request.
        id: SubstreamId,
        /// Value that was passed when starting the request.
        user_data: TRqUd,
    },
    /// Remote has opened an inbound notifications substream, which must be accepted or
    /// rejected.
    NotificationsInOpen {
        /// Identifier of the substream.
        id: SubstreamId,
        /// Index of the notifications protocol in the configuration.
        protocol_index: usize,
        /// Handshake sent by the remote.
        handshake: Vec<u8>,
    },
    /// Remote has canceled an inbound notifications substream opening.
    NotificationsInOpenCancel {
        /// Identifier of the substream.
        id: SubstreamId,
    },
    /// Remote has sent a notification on an accepted inbound notifications substream.
    NotificationIn {
        /// Identifier of the substream.
        id: SubstreamId,
        /// Notification sent by the remote.
        notification: Vec<u8>,
    },
    /// Remote has closed an accepted inbound notifications substream.
    NotificationsInClose {
        /// Identifier of the substream.
        id: SubstreamId,
        /// If `Ok`, the substream has been closed gracefully. If `Err`, a problem happened.
        outcome: Result<(), NotificationsInClosedErr>,
    },
    /// Outcome of opening an outbound notifications substream.
    NotificationsOutResult {
        /// Identifier of the substream.
        id: SubstreamId,
        /// Handshake of the remote, or what went wrong together with the user data.
        result: Result<Vec<u8>, (NotificationsOutErr, TNotifUd)>,
    },
    /// Remote has closed an outgoing notifications substream, and demands its closing.
    NotificationsOutCloseDemanded {
        /// Identifier of the substream.
        id: SubstreamId,
    },
    /// Remote has reset an outgoing notifications substream. The substream is instantly closed.
    NotificationsOutReset {
        /// Identifier of the substream.
        id: SubstreamId,
        /// Value that was passed when opening the substream.
        user_data: TNotifUd,
    },
    /// An outgoing ping has succeeded.
    PingOutSuccess,
    /// An outgoing ping has failed.
    PingOutFailed,
}

impl AddRequestError {
    /// Human-readable name of the error.
    pub fn to_string(&self) -> (r: String)
        ensures
            *self == AddRequestError::RequestTooLarge ==> r@ == "RequestTooLarge"@,
            *self == AddRequestError::NewOutboundSubstreamsForbidden
                ==> r@ == "NewOutboundSubstreamsForbidden"@,
    {
        match self {
            AddRequestError::RequestTooLarge => "RequestTooLarge".to_owned(),
            AddRequestError::NewOutboundSubstreamsForbidden => "NewOutboundSubstreamsForbidden".to_owned(),
        }
    }
}

} // verus!

use vstd::prelude::*;
use vstd::utf8::encode_utf8;
use crate::config::{Config, ConfigNotifications, ConfigRequestResponse, ConfigRequestResponseIn};
use crate::event::{AddRequestError, RespondInRequestError};
use crate::framing::{
    FrameError, append_bytes, encode_frame, encode_line, frame_decode_spec, frame_spec,
    lemma_frame_round_trip, lemma_line_round_trip, line_decode_spec, line_spec,
};
use crate::event::NotificationsInClosedErr;
use crate::substream::{frames_spec, lemma_notifications_round_trip, notifications_spec};
use crate::substream_id::SubstreamId;

verus! {

/// Where a substream stands, from the point of view of the operations of the local user.
#[derive(Debug, Clone, Copy, PartialEq, Eq, Structural)]
pub enum SubstreamState {
    /// An outgoing request has been sent; its response is awaited.
    RequestOut,
    /// No response to an outgoing request came before its deadline.
    RequestOutTimedOut,
    /// The response to an outgoing request, or why there is none, has been received.
    RequestOutDone,
    /// The remote sent a request that has not been answered yet.
    RequestIn,
    /// The answer to an incoming request has been queued.
    RequestInAnswered,
    /// The local handshake of an outgoing notifications substream has been sent.
    NotificationsOutOpening,
    /// No handshake came back on an outgoing notifications substream before its deadline.
    NotificationsOutTimedOut,
    /// The remote refused an outgoing notifications substream, or its handshake was invalid.
    NotificationsOutFailed,
    /// The remote accepted an outgoing notifications substream.
    NotificationsOutOpen,
    /// The local user closed an outgoing notifications substream.
    NotificationsOutClosed,
    /// The remote opened a notifications substream; accepting or rejecting it is awaited.
    NotificationsInWaitAnswer,
    /// The local user accepted an incoming notifications substream.
    NotificationsInAccepted,
    /// The local user closed an accepted incoming notifications substream.
    NotificationsInClosed,
    /// The local user rejected an incoming notifications substream.
    NotificationsInRefused,
    /// The remote closed or reset an incoming notifications substream before it was answered.
    NotificationsInCancelled,
}

/// A substream of the connection.
#[derive(Debug, Clone, Copy, PartialEq, Eq, Structural)]
pub struct SubstreamEntry {
    /// Multiplexer identifier of the substream.
    pub id: u32,
    pub state: SubstreamState,
    /// Index of the protocol of the substream in the configuration.
    pub protocol_index: usize,
    /// When an outgoing request or an outgoing notifications substream being opened times
    /// out; unused in other states.
    pub deadline: u64,
}

/// Something that the connection asks the multiplexer to do on a substream.
#[derive(Debug)]
pub enum Action {
    /// Write these bytes on the substream.
    Write { id: u32, bytes: Vec<u8> },
    /// Close the writing side of the substream.
    Close { id: u32 },
    /// Reset the substream.
    Reset { id: u32 },
}

/// The model of an [`Action`].
pub enum ActionView {
    Write { id: u32, bytes: Seq<u8> },
    Close { id: u32 },
    Reset { id: u32 },
}

impl View for Action {
    type V = ActionView;

    open spec fn view(&self) -> ActionView {
        match self {
            Action::Write { id, bytes } => ActionView::Write { id: *id, bytes: bytes@ },
            Action::Close { id } => ActionView::Close { id: *id },
            Action::Reset { id } => ActionView::Reset { id: *id },
        }
    }
}

/// The model of a [`Connection`].
pub struct ConnectionView {
    /// Identifier that the next outgoing substream gets.
    pub next_id: u32,
    /// Opening outgoing substreams is forbidden.
    pub forbidden: bool,
    pub substreams: Seq<SubstreamEntry>,
    /// Actions queued and not taken yet, oldest first.
    pub actions: Seq<ActionView>,
    /// Names of the request-response protocols, as bytes.
    pub request_names: Seq<Seq<u8>>,
    /// Shapes of the requests of the request-response protocols.
    pub request_configs: Seq<ConfigRequestResponseIn>,
    /// Names of the notifications protocols, as bytes.
    pub notifications_names: Seq<Seq<u8>>,
    /// Whether the remote may open substreams on each request-response protocol.
    pub request_inbound_allowed: Seq<bool>,
    /// Name of the ping protocol, as bytes.
    pub ping_name: Seq<u8>,
}

/// Substream table of an established connection: the substreams, what the local user's
/// operations did to them, and the bytes and signals that these operations queued.
pub struct Connection {
    next_id: u32,
    new_outbound_forbidden: bool,
    substreams: Vec<SubstreamEntry>,
    actions: Vec<Action>,
    request_protocols: Vec<ConfigRequestResponse>,
    notifications_protocols: Vec<ConfigNotifications>,
    ping_protocol: String,
}

impl View for Connection {
    type V = ConnectionView;

    closed spec fn view(&self) -> ConnectionView {
        ConnectionView {
            next_id: self.next_id,
            forbidden: self.new_outbound_forbidden,
            substreams: self.substreams@,
            actions: self.actions@.map_values(|a: Action| a@),
            request_names: self.request_protocols@.map_values(
                |p: ConfigRequestResponse| encode_utf8(p.name@),
            ),
            request_configs: self.request_protocols@.map_values(
                |p: ConfigRequestResponse| p.inbound_config,
            ),
            notifications_names: self.notifications_protocols@.map_values(
                |p: ConfigNotifications| encode_utf8(p.name@),
            ),
            request_inbound_allowed: self.request_protocols@.map_values(
                |p: ConfigRequestResponse| p.inbound_allowed,
            ),
            ping_name: encode_utf8(self.ping_protocol@),
        }
    }
}

/// The first line that both sides of a substream send.
pub open spec fn multistream_header() -> Seq<u8> {
    encode_utf8("/multistream/1.0.0"@)
}

/// What the opener of a substream sends to propose the protocol `name`.
pub open spec fn negotiation_spec(name: Seq<u8>) -> Seq<u8> {
    line_spec(multistream_header()) + line_spec(name)
}

/// Some substream of `subs` has identifier `id` and state `st`.
pub open spec fn has_entry(subs: Seq<SubstreamEntry>, id: u32, st: SubstreamState) -> bool {
    exists|i: int| 0 <= i < subs.len() && subs[i].id == id && subs[i].state == st
}

/// `subs` where each substream with identifier `id` and state `from` is put in state `to`.
pub open spec fn retag(
    subs: Seq<SubstreamEntry>,
    id: u32,
    from: SubstreamState,
    to: SubstreamState,
) -> Seq<SubstreamEntry> {
    subs.map_values(
        |e: SubstreamEntry|
            if e.id == id && e.state == from {
                SubstreamEntry { state: to, ..e }
            } else {
                e
            },
    )
}

/// `c` with other substreams and actions, the rest kept.
pub open spec fn with_parts(
    c: ConnectionView,
    subs: Seq<SubstreamEntry>,
    actions: Seq<ActionView>,
) -> ConnectionView {
    ConnectionView { substreams: subs, actions: actions, ..c }
}

/// What closing the notifications substream `id` does: an open outgoing one, or an accepted
/// incoming one, is closed and the closing of its writing side is queued; else nothing.
pub open spec fn close_spec(c: ConnectionView, id: u32) -> ConnectionView {
    if has_entry(c.substreams, id, SubstreamState::NotificationsOutOpen) || has_entry(
        c.substreams,
        id,
        SubstreamState::NotificationsInAccepted,
    ) {
        with_parts(
            c,
            retag(
                retag(
                    c.substreams,
                    id,
                    SubstreamState::NotificationsOutOpen,
                    SubstreamState::NotificationsOutClosed,
                ),
                id,
                SubstreamState::NotificationsInAccepted,
                SubstreamState::NotificationsInClosed,
            ),
            c.actions.push(ActionView::Close { id }),
        )
    } else {
        c
    }
}

/// Bytes of an outgoing request after negotiation: nothing for a protocol whose requests are
/// empty, else a frame carrying the request.
pub open spec fn request_body_spec(cfg: ConfigRequestResponseIn, request: Seq<u8>) -> Seq<u8> {
    match cfg {
        ConfigRequestResponseIn::Empty => Seq::empty(),
        ConfigRequestResponseIn::Payload { .. } => frame_spec(request),
    }
}

/// Identifiers of outgoing substreams are exhausted.
pub open spec fn ids_exhausted(c: ConnectionView) -> bool {
    c.next_id > u32::MAX - 2
}

/// `c` where opening outgoing substreams is forbidden.
pub open spec fn forbid_spec(c: ConnectionView) -> ConnectionView {
    ConnectionView { forbidden: true, ..c }
}

/// `c` with one more outgoing substream, in state `st`, whose first bytes are `bytes`.
pub open spec fn open_outbound_spec(
    c: ConnectionView,
    st: SubstreamState,
    protocol_index: usize,
    deadline: u64,
    bytes: Seq<u8>,
) -> ConnectionView {
    ConnectionView {
        next_id: (c.next_id + 2) as u32,
        substreams: c.substreams.push(
            SubstreamEntry {
                id: c.next_id,
                state: st,
                protocol_index: protocol_index,
                deadline: deadline,
            },
        ),
        actions: c.actions.push(ActionView::Write { id: c.next_id, bytes: bytes }),
        ..c
    }
}

/// What starting a request does, and what it returns: the identifier of the new substream,
/// whose bytes are the negotiation of the protocol and the request, followed by the closing
/// of its writing side.
pub open spec fn add_request_spec(
    c: ConnectionView,
    protocol_index: usize,
    request: Seq<u8>,
    deadline: u64,
) -> (
    ConnectionView,
    Result<u32, AddRequestError>,
) {
    if c.forbidden {
        (c, Err(AddRequestError::NewOutboundSubstreamsForbidden))
    } else if request.len() > c.request_configs[protocol_index as int].spec_max_size() {
        (c, Err(AddRequestError::RequestTooLarge))
    } else if ids_exhausted(c) {
        (forbid_spec(c), Err(AddRequestError::NewOutboundSubstreamsForbidden))
    } else {
        let opened = open_outbound_spec(
            c,
            SubstreamState::RequestOut,
            protocol_index,
            deadline,
            negotiation_spec(c.request_names[protocol_index as int]) + request_body_spec(
                c.request_configs[protocol_index as int],
                request,
            ),
        );
        (
            ConnectionView { actions: opened.actions.push(ActionView::Close { id: c.next_id }), ..opened },
            Ok(c.next_id),
        )
    }
}

/// What opening a notifications substream does, and what it returns: the identifier of the
/// new substream, whose bytes are the negotiation of the protocol and the handshake.
pub open spec fn open_notifications_spec(
    c: ConnectionView,
    protocol_index: usize,
    handshake: Seq<u8>,
    deadline: u64,
) -> (ConnectionView, Option<u32>) {
    if c.forbidden {
        (c, None)
    } else if ids_exhausted(c) {
        (forbid_spec(c), None)
    } else {
        (
            open_outbound_spec(
                c,
                SubstreamState::NotificationsOutOpening,
                protocol_index,
                deadline,
                negotiation_spec(c.notifications_names[protocol_index as int]) + frame_spec(
                    handshake,
                ),
            ),
            Some(c.next_id),
        )
    }
}

/// `c` with one more substream opened by the remote.
pub open spec fn inbound_spec(
    c: ConnectionView,
    id: u32,
    st: SubstreamState,
    protocol_index: usize,
) -> ConnectionView {
    with_parts(
        c,
        c.substreams.push(
            SubstreamEntry { id: id, state: st, protocol_index: protocol_index, deadline: 0 },
        ),
        c.actions,
    )
}

/// What accepting the incoming notifications substream `id` does: if it awaits an answer, it
/// is accepted and the local handshake is queued; else nothing.
pub open spec fn accept_spec(c: ConnectionView, id: u32, handshake: Seq<u8>) -> ConnectionView {
    if has_entry(c.substreams, id, SubstreamState::NotificationsInWaitAnswer) {
        with_parts(
            c,
            retag(
                c.substreams,
                id,
                SubstreamState::NotificationsInWaitAnswer,
                SubstreamState::NotificationsInAccepted,
            ),
            c.actions.push(ActionView::Write { id, bytes: frame_spec(handshake) }),
        )
    } else {
        c
    }
}

/// What rejecting the incoming notifications substream `id` does: if it awaits an answer, it
/// is refused and reset; else nothing.
pub open spec fn reject_spec(c: ConnectionView, id: u32) -> ConnectionView {
    if has_entry(c.substreams, id, SubstreamState::NotificationsInWaitAnswer) {
        with_parts(
            c,
            retag(
                c.substreams,
                id,
                SubstreamState::NotificationsInWaitAnswer,
                SubstreamState::NotificationsInRefused,
            ),
            c.actions.push(ActionView::Reset { id }),
        )
    } else {
        c
    }
}

/// What answering the incoming request `id` does, and what it returns: a response is sent
/// framed and followed by the closing of the writing side, a refusal resets the substream.
pub open spec fn respond_spec(c: ConnectionView, id: u32, response: Result<Seq<u8>, ()>) -> (
    ConnectionView,
    Result<(), RespondInRequestError>,
) {
    if has_entry(c.substreams, id, SubstreamState::RequestIn) {
        let subs = retag(
            c.substreams,
            id,
            SubstreamState::RequestIn,
            SubstreamState::RequestInAnswered,
        );
        match response {
            Ok(bytes) => (
                with_parts(
                    c,
                    subs,
                    c.actions.push(ActionView::Write { id, bytes: frame_spec(bytes) }).push(
                        ActionView::Close { id },
                    ),
                ),
                Ok(()),
            ),
            Err(()) => (with_parts(c, subs, c.actions.push(ActionView::Reset { id })), Ok(())),
        }
    } else {
        (c, Err(RespondInRequestError::SubstreamClosed))
    }
}

/// What the remote closing or resetting the substream `id` before it was answered does: an
/// incoming notifications substream that awaits an answer is cancelled.
pub open spec fn remote_cancel_spec(c: ConnectionView, id: u32) -> ConnectionView {
    with_parts(
        c,
        retag(
            c.substreams,
            id,
            SubstreamState::NotificationsInWaitAnswer,
            SubstreamState::NotificationsInCancelled,
        ),
        c.actions,
    )
}

/// The substream waits for something that times out at its deadline, and `now` reached it.
pub open spec fn expired(e: SubstreamEntry, now: u64) -> bool {
    (e.state == SubstreamState::RequestOut || e.state == SubstreamState::NotificationsOutOpening)
        && now >= e.deadline
}

/// The substream after `now`: an expired request or opening times out.
pub open spec fn expire_entry(e: SubstreamEntry, now: u64) -> SubstreamEntry {
    if expired(e, now) {
        SubstreamEntry {
            state: if e.state == SubstreamState::RequestOut {
                SubstreamState::RequestOutTimedOut
            } else {
                SubstreamState::NotificationsOutTimedOut
            },
            ..e
        }
    } else {
        e
    }
}

/// What time `now` does: every expired request or opening times out, and its substream is
/// reset, in the order of the substreams.
pub open spec fn expire_spec(c: ConnectionView, now: u64) -> ConnectionView {
    with_parts(
        c,
        c.substreams.map_values(|e: SubstreamEntry| expire_entry(e, now)),
        c.actions + expired_resets(c.substreams, now),
    )
}

/// Identifiers of the substreams of `subs` that expire at `now`, in order.
pub open spec fn expired_ids(subs: Seq<SubstreamEntry>, now: u64) -> Seq<u32>
    decreases subs.len(),
{
    if subs.len() == 0 {
        Seq::empty()
    } else if expired(subs.last(), now) {
        expired_ids(subs.drop_last(), now).push(subs.last().id)
    } else {
        expired_ids(subs.drop_last(), now)
    }
}

/// Resets of the substreams of `subs` that expire at `now`, in order.
pub open spec fn expired_resets(subs: Seq<SubstreamEntry>, now: u64) -> Seq<ActionView>
    decreases subs.len(),
{
    if subs.len() == 0 {
        Seq::empty()
    } else if expired(subs.last(), now) {
        expired_resets(subs.drop_last(), now).push(ActionView::Reset { id: subs.last().id })
    } else {
        expired_resets(subs.drop_last(), now)
    }
}

/// Some substream waits for something that times out at `d`.
pub open spec fn is_pending_deadline(c: ConnectionView, d: u64) -> bool {
    exists|i: int|
        0 <= i < c.substreams.len() && (c.substreams[i].state == SubstreamState::RequestOut
            || c.substreams[i].state == SubstreamState::NotificationsOutOpening)
            && c.substreams[i].deadline == d
}

/// What writing `notification` on the substream `id` does: on an open outgoing
/// notifications substream, a frame carrying it is queued; else nothing.
pub open spec fn write_notification_spec(c: ConnectionView, id: u32, notification: Seq<u8>) -> ConnectionView {
    if has_entry(c.substreams, id, SubstreamState::NotificationsOutOpen) {
        with_parts(
            c,
            c.substreams,
            c.actions.push(ActionView::Write { id, bytes: frame_spec(notification) }),
        )
    } else {
        c
    }
}

/// Operations writing each of `ns` on the substream `id`, in order.
pub open spec fn write_ops(id: u32, ns: Seq<Seq<u8>>) -> Seq<Operation>
    decreases ns.len(),
{
    if ns.len() == 0 {
        Seq::empty()
    } else {
        seq![Operation::WriteNotification { id, notification: ns[0] }] + write_ops(
            id,
            ns.drop_first(),
        )
    }
}

/// Writes of frames carrying each of `ns` on the substream `id`, in order.
pub open spec fn frame_writes(id: u32, ns: Seq<Seq<u8>>) -> Seq<ActionView>
    decreases ns.len(),
{
    if ns.len() == 0 {
        Seq::empty()
    } else {
        seq![ActionView::Write { id, bytes: frame_spec(ns[0]) }] + frame_writes(id, ns.drop_first())
    }
}

/// Bytes that the writes of `acts` put on the wire, one after the other.
pub open spec fn written_bytes(acts: Seq<ActionView>) -> Seq<u8>
    decreases acts.len(),
{
    if acts.len() == 0 {
        Seq::empty()
    } else {
        (match acts[0] {
            ActionView::Write { bytes, .. } => bytes,
            _ => Seq::empty(),
        }) + written_bytes(acts.drop_first())
    }
}

/// Notifications written one after the other on an open outgoing notifications substream
/// queue one frame each, in order, and the bytes of these frames are read back by the other
/// side as the same notifications, in the same order, whenever each is within its maximum.
pub proof fn lemma_written_notifications_read_back(
    c: ConnectionView,
    id: u32,
    ns: Seq<Seq<u8>>,
    max: nat,
)
    requires
        has_entry(c.substreams, id, SubstreamState::NotificationsOutOpen),
        forall|i: int| 0 <= i < ns.len() ==> ns[i].len() <= max && ns[i].len() <= u64::MAX,
    ensures
        run_spec(c, write_ops(id, ns)) == with_parts(
            c,
            c.substreams,
            c.actions + frame_writes(id, ns),
        ),
        notifications_spec(written_bytes(frame_writes(id, ns)), max) == (
            ns,
            written_bytes(frame_writes(id, ns)).len(),
            None::<NotificationsInClosedErr>,
        ),
    decreases ns.len(),
{
    lemma_written_bytes_are_frames(id, ns);
    lemma_notifications_round_trip(ns, max);
    if ns.len() == 0 {
        assert(c.actions + frame_writes(id, ns) =~= c.actions);
    } else {
        let ops = write_ops(id, ns);
        assert(ops[0] == Operation::WriteNotification { id, notification: ns[0] });
        assert(ops.drop_first() =~= write_ops(id, ns.drop_first()));
        let next = apply_spec(c, ops[0]);
        assert(next == with_parts(
            c,
            c.substreams,
            c.actions.push(ActionView::Write { id, bytes: frame_spec(ns[0]) }),
        ));
        lemma_written_notifications_read_back(next, id, ns.drop_first(), max);
        assert(next.actions + frame_writes(id, ns.drop_first()) =~= c.actions + frame_writes(
            id,
            ns,
        ));
    }
}

proof fn lemma_written_bytes_are_frames(id: u32, ns: Seq<Seq<u8>>)
    ensures
        written_bytes(frame_writes(id, ns)) == frames_spec(ns),
    decreases ns.len(),
{
    if ns.len() > 0 {
        let w = frame_writes(id, ns);
        assert(w.drop_first() =~= frame_writes(id, ns.drop_first()));
        lemma_written_bytes_are_frames(id, ns.drop_first());
    }
}

/// State of an outgoing notifications substream once the remote answered its opening.
pub open spec fn opening_outcome(accepted: bool) -> SubstreamState {
    if accepted {
        SubstreamState::NotificationsOutOpen
    } else {
        SubstreamState::NotificationsOutFailed
    }
}

/// An operation on the substream table.
pub enum Operation {
    AddRequest { protocol_index: usize, request: Seq<u8>, deadline: u64 },
    OpenNotifications { protocol_index: usize, handshake: Seq<u8>, deadline: u64 },
    Expire { now: u64 },
    InboundRequest { id: u32, protocol_index: usize },
    InboundNotificationsOpen { id: u32, protocol_index: usize },
    RemoteCancel { id: u32 },
    WriteNotification { id: u32, notification: Seq<u8> },
    ResponseReceived { id: u32 },
    HandshakeReceived { id: u32, accepted: bool },
    Accept { id: u32, handshake: Seq<u8> },
    Reject { id: u32 },
    Close { id: u32 },
    Respond { id: u32, response: Result<Seq<u8>, ()> },
    ForbidNewOutbound,
    TakeActions,
}

/// The substream table after the operation `op`.
pub open spec fn apply_spec(c: ConnectionView, op: Operation) -> ConnectionView {
    match op {
        Operation::AddRequest { protocol_index, request, deadline } => add_request_spec(
            c,
            protocol_index,
            request,
            deadline,
        ).0,
        Operation::OpenNotifications {
            protocol_index,
            handshake,
            deadline,
        } => open_notifications_spec(c, protocol_index, handshake, deadline).0,
        Operation::Expire { now } => expire_spec(c, now),
        Operation::InboundRequest { id, protocol_index } => inbound_spec(
            c,
            id,
            SubstreamState::RequestIn,
            protocol_index,
        ),
        Operation::InboundNotificationsOpen { id, protocol_index } => inbound_spec(
            c,
            id,
            SubstreamState::NotificationsInWaitAnswer,
            protocol_index,
        ),
        Operation::RemoteCancel { id } => remote_cancel_spec(c, id),
        Operation::WriteNotification { id, notification } => write_notification_spec(
            c,
            id,
            notification,
        ),
        Operation::ResponseReceived { id } => with_parts(
            c,
            retag(c.substreams, id, SubstreamState::RequestOut, SubstreamState::RequestOutDone),
            c.actions,
        ),
        Operation::HandshakeReceived { id, accepted } => with_parts(
            c,
            retag(
                c.substreams,
                id,
                SubstreamState::NotificationsOutOpening,
                opening_outcome(accepted),
            ),
            c.actions,
        ),
        Operation::Accept { id, handshake } => accept_spec(c, id, handshake),
        Operation::Reject { id } => reject_spec(c, id),
        Operation::Close { id } => close_spec(c, id),
        Operation::Respond { id, response } => respond_spec(c, id, response).0,
        Operation::ForbidNewOutbound => forbid_spec(c),
        Operation::TakeActions => with_parts(c, c.substreams, Seq::empty()),
    }
}

/// The substream table after the operations `ops`, in order.
pub open spec fn run_spec(c: ConnectionView, ops: Seq<Operation>) -> ConnectionView
    decreases ops.len(),
{
    if ops.len() == 0 {
        c
    } else {
        run_spec(apply_spec(c, ops[0]), ops.drop_first())
    }
}

/// Once opening outgoing substreams is forbidden, it stays forbidden whatever operations
/// follow, and every later request and notifications substream fails to open.
pub proof fn lemma_forbidden_is_permanent(
    c: ConnectionView,
    ops: Seq<Operation>,
    protocol_index: usize,
    payload: Seq<u8>,
    deadline: u64,
)
    requires
        c.forbidden,
    ensures
        run_spec(c, ops).forbidden,
        add_request_spec(run_spec(c, ops), protocol_index, payload, deadline).1 == Err::<
            u32,
            AddRequestError,
        >(AddRequestError::NewOutboundSubstreamsForbidden),
        add_request_spec(run_spec(c, ops), protocol_index, payload, deadline).0 == run_spec(c, ops),
        open_notifications_spec(run_spec(c, ops), protocol_index, payload, deadline).1 is None,
        open_notifications_spec(run_spec(c, ops), protocol_index, payload, deadline).0 == run_spec(c, ops),
    decreases ops.len(),
{
    if ops.len() > 0 {
        let next = apply_spec(c, ops[0]);
        assert(next.forbidden);
        lemma_forbidden_is_permanent(next, ops.drop_first(), protocol_index, payload, deadline);
    }
}

/// States through which an incoming notifications substream can go once it has been answered
/// or cancelled, grouped by outcome: accepted (then possibly closed), refused, cancelled.
pub open spec fn same_outcome(a: SubstreamState, b: SubstreamState) -> bool {
    match a {
        SubstreamState::NotificationsInAccepted | SubstreamState::NotificationsInClosed => b
            == SubstreamState::NotificationsInAccepted || b
            == SubstreamState::NotificationsInClosed,
        _ => b == a,
    }
}

/// How an incoming notifications substream may go from `a` to `b` over operations: while it
/// awaits an answer it may get exactly one outcome, and once it has one it keeps it.
pub open spec fn in_notifications_step(a: SubstreamState, b: SubstreamState) -> bool {
    match a {
        SubstreamState::NotificationsInWaitAnswer => b == SubstreamState::NotificationsInWaitAnswer
            || b == SubstreamState::NotificationsInAccepted || b
            == SubstreamState::NotificationsInRefused || b
            == SubstreamState::NotificationsInCancelled,
        SubstreamState::NotificationsInAccepted | SubstreamState::NotificationsInClosed
        | SubstreamState::NotificationsInRefused | SubstreamState::NotificationsInCancelled =>
            same_outcome(a, b),
        _ => true,
    }
}

proof fn lemma_retag_entry(
    subs: Seq<SubstreamEntry>,
    id: u32,
    from: SubstreamState,
    to: SubstreamState,
    i: int,
)
    requires
        0 <= i < subs.len(),
    ensures
        retag(subs, id, from, to).len() == subs.len(),
        retag(subs, id, from, to)[i].id == subs[i].id,
        retag(subs, id, from, to)[i].state == subs[i].state || (subs[i].state == from
            && retag(subs, id, from, to)[i].state == to),
{
}

proof fn lemma_apply_in_notifications(c: ConnectionView, op: Operation, i: int)
    requires
        0 <= i < c.substreams.len(),
    ensures
        apply_spec(c, op).substreams.len() >= c.substreams.len(),
        apply_spec(c, op).substreams[i].id == c.substreams[i].id,
        in_notifications_step(c.substreams[i].state, apply_spec(c, op).substreams[i].state),
{
    let s = c.substreams;
    match op {
        Operation::RemoteCancel { id } => {
            lemma_retag_entry(
                s,
                id,
                SubstreamState::NotificationsInWaitAnswer,
                SubstreamState::NotificationsInCancelled,
                i,
            );
        },
        Operation::Accept { id, handshake } => {
            lemma_retag_entry(
                s,
                id,
                SubstreamState::NotificationsInWaitAnswer,
                SubstreamState::NotificationsInAccepted,
                i,
            );
        },
        Operation::Reject { id } => {
            lemma_retag_entry(
                s,
                id,
                SubstreamState::NotificationsInWaitAnswer,
                SubstreamState::NotificationsInRefused,
                i,
            );
        },
        Operation::Close { id } => {
            let s1 = retag(
                s,
                id,
                SubstreamState::NotificationsOutOpen,
                SubstreamState::NotificationsOutClosed,
            );
            lemma_retag_entry(
                s,
                id,
                SubstreamState::NotificationsOutOpen,
                SubstreamState::NotificationsOutClosed,
                i,
            );
            lemma_retag_entry(
                s1,
                id,
                SubstreamState::NotificationsInAccepted,
                SubstreamState::NotificationsInClosed,
                i,
            );
        },
        Operation::Expire { now } => {
            assert(apply_spec(c, op).substreams[i] == expire_entry(s[i], now));
        },
        Operation::ResponseReceived { id } => {
            lemma_retag_entry(s, id, SubstreamState::RequestOut, SubstreamState::RequestOutDone, i);
        },
        Operation::HandshakeReceived { id, accepted } => {
            lemma_retag_entry(
                s,
                id,
                SubstreamState::NotificationsOutOpening,
                opening_outcome(accepted),
                i,
            );
        },
        Operation::Respond { id, response } => {
            lemma_retag_entry(
                s,
                id,
                SubstreamState::RequestIn,
                SubstreamState::RequestInAnswered,
                i,
            );
        },
        _ => {},
    }
}

/// The state is an outcome of an incoming notifications substream.
pub open spec fn is_in_outcome(st: SubstreamState) -> bool {
    st == SubstreamState::NotificationsInAccepted || st == SubstreamState::NotificationsInClosed
        || st == SubstreamState::NotificationsInRefused || st
        == SubstreamState::NotificationsInCancelled
}

/// An incoming notifications substream that awaits an answer ends, whatever operations follow,
/// with at most one outcome: still awaiting, accepted (then possibly closed), refused, or
/// cancelled by the remote. A substream that had an outcome keeps it.
pub proof fn lemma_in_notifications_single_outcome(c: ConnectionView, ops: Seq<Operation>, i: int)
    requires
        0 <= i < c.substreams.len(),
    ensures
        run_spec(c, ops).substreams.len() >= c.substreams.len(),
        run_spec(c, ops).substreams[i].id == c.substreams[i].id,
        c.substreams[i].state == SubstreamState::NotificationsInWaitAnswer ==> (run_spec(
            c,
            ops,
        ).substreams[i].state == SubstreamState::NotificationsInWaitAnswer || same_outcome(
            SubstreamState::NotificationsInAccepted,
            run_spec(c, ops).substreams[i].state,
        ) || run_spec(c, ops).substreams[i].state == SubstreamState::NotificationsInRefused
            || run_spec(c, ops).substreams[i].state
            == SubstreamState::NotificationsInCancelled),
        is_in_outcome(c.substreams[i].state) ==> same_outcome(
            c.substreams[i].state,
            run_spec(c, ops).substreams[i].state,
        ),
    decreases ops.len(),
{
    if ops.len() > 0 {
        let next = apply_spec(c, ops[0]);
        lemma_apply_in_notifications(c, ops[0], i);
        lemma_in_notifications_single_outcome(next, ops.drop_first(), i);
    }
}

/// Protocol that an incoming substream may negotiate.
#[derive(Debug, Clone, Copy, PartialEq, Eq, Structural)]
pub enum InboundProtocol {
    Ping,
    /// The request-response protocol with this index.
    Request(usize),
    /// The notifications protocol with this index.
    Notifications(usize),
}

/// The request-response protocol `i` is the first that the remote may open with the name
/// `name`.
pub open spec fn first_request_match(c: ConnectionView, name: Seq<u8>, i: int) -> bool {
    0 <= i < c.request_names.len() && c.request_inbound_allowed[i] && c.request_names[i] == name
        && forall|j: int|
        0 <= j < i ==> !(c.request_inbound_allowed[j] && c.request_names[j] == name)
}

/// The notifications protocol `i` is the first with the name `name`.
pub open spec fn first_notifications_match(c: ConnectionView, name: Seq<u8>, i: int) -> bool {
    0 <= i < c.notifications_names.len() && c.notifications_names[i] == name && forall|j: int|
        0 <= j < i ==> c.notifications_names[j] != name
}

/// Which protocol the name `name` proposed by the remote selects: the ping protocol first,
/// then the request-response protocols that the remote may open, then the notifications
/// protocols; `None` if no protocol has this name.
pub open spec fn select_spec(c: ConnectionView, name: Seq<u8>, r: Option<InboundProtocol>) -> bool {
    match r {
        Some(InboundProtocol::Ping) => name == c.ping_name,
        Some(InboundProtocol::Request(i)) => name != c.ping_name && first_request_match(
            c,
            name,
            i as int,
        ),
        Some(InboundProtocol::Notifications(i)) => name != c.ping_name && (forall|j: int|
            0 <= j < c.request_names.len() ==> !(c.request_inbound_allowed[j]
                && c.request_names[j] == name)) && first_notifications_match(c, name, i as int),
        None => name != c.ping_name && (forall|j: int|
            0 <= j < c.request_names.len() ==> !(c.request_inbound_allowed[j]
                && c.request_names[j] == name)) && (forall|j: int|
            0 <= j < c.notifications_names.len() ==> c.notifications_names[j] != name),
    }
}

/// Returns true if the two byte strings are equal.
pub fn bytes_eq(a: &[u8], b: &[u8]) -> (r: bool)
    ensures
        r == (a@ == b@),
{
    if a.len() != b.len() {
        return false;
    }
    let mut i: usize = 0;
    while i < a.len()
        invariant
            a@.len() == b@.len(),
            i <= a@.len(),
            forall|j: int| 0 <= j < i ==> a@[j] == b@[j],
        decreases a@.len() - i,
    {
        if a[i] != b[i] {
            return false;
        }
        i = i + 1;
    }
    proof {
        assert(a@ =~= b@);
    }
    true
}

/// What the opener of a substream writes, the negotiation of `name` then a frame carrying
/// `payload`, is read back by the other side as the multistream-select header line, the line
/// `name`, and `payload`, whenever each is within the reader's maximum.
pub proof fn lemma_outbound_bytes_round_trip(
    name: Seq<u8>,
    payload: Seq<u8>,
    rest: Seq<u8>,
    max_line: nat,
    max_payload: nat,
)
    requires
        multistream_header().len() <= max_line,
        multistream_header().len() < u64::MAX,
        name.len() <= max_line,
        name.len() < u64::MAX,
        payload.len() <= max_payload,
        payload.len() <= u64::MAX,
    ensures
        ({
            let s = negotiation_spec(name) + frame_spec(payload) + rest;
            let l1 = line_spec(multistream_header()).len();
            let l2 = line_spec(name).len();
            let l3 = frame_spec(payload).len();
            &&& line_decode_spec(s, max_line) == Ok::<Option<(Seq<u8>, nat)>, FrameError>(
                Some((multistream_header(), l1)),
            )
            &&& line_decode_spec(s.skip(l1 as int), max_line) == Ok::<
                Option<(Seq<u8>, nat)>,
                FrameError,
            >(Some((name, l2)))
            &&& frame_decode_spec(s.skip((l1 + l2) as int), max_payload) == Ok::<
                Option<(Seq<u8>, nat)>,
                FrameError,
            >(Some((payload, l3)))
        }),
{
    let h = line_spec(multistream_header());
    let n = line_spec(name);
    let f = frame_spec(payload);
    let s = negotiation_spec(name) + f + rest;
    assert(s =~= h + (n + f + rest));
    assert(s.skip(h.len() as int) =~= n + (f + rest));
    assert(s.skip((h.len() + n.len()) as int) =~= f + rest);
    lemma_line_round_trip(multistream_header(), n + f + rest, max_line);
    lemma_line_round_trip(name, f + rest, max_line);
    lemma_frame_round_trip(payload, rest, max_payload);
}

/// Writes the bytes with which the opener of a substream proposes the protocol `name`.
pub fn encode_negotiation(name: &[u8]) -> (r: Vec<u8>)
    ensures
        r@ == negotiation_spec(name@),
{
    let header = "/multistream/1.0.0".as_bytes();
    let mut out = encode_line(header);
    let proposal = encode_line(name);
    append_bytes(&mut out, proposal.as_slice());
    out
}

impl Connection {
    /// Builds the substream table of a connection. The side that dialed the connection gives
    /// odd identifiers to its substreams, the other side even ones.
    pub fn new<TNow>(config: Config<TNow>, is_dialer: bool) -> (r: Self)
        ensures
            r@.next_id == (if is_dialer { 1u32 } else { 2u32 }),
            !r@.forbidden,
            r@.substreams.len() == 0,
            r@.actions.len() == 0,
            r@.request_names == config.request_protocols@.map_values(
                |p: ConfigRequestResponse| encode_utf8(p.name@),
            ),
            r@.request_configs == config.request_protocols@.map_values(
                |p: ConfigRequestResponse| p.inbound_config,
            ),
            r@.notifications_names == config.notifications_protocols@.map_values(
                |p: ConfigNotifications| encode_utf8(p.name@),
            ),
            r@.request_inbound_allowed == config.request_protocols@.map_values(
                |p: ConfigRequestResponse| p.inbound_allowed,
            ),
            r@.ping_name == encode_utf8(config.ping_protocol@),
    {
        let r = Connection {
            next_id: if is_dialer { 1 } else { 2 },
            new_outbound_forbidden: false,
            substreams: Vec::new(),
            actions: Vec::new(),
            request_protocols: config.request_protocols,
            notifications_protocols: config.notifications_protocols,
            ping_protocol: config.ping_protocol,
        };
        proof {
            assert(r@.actions =~= Seq::<ActionView>::empty());
        }
        r
    }

    /// Returns true if opening outgoing substreams is forbidden.
    pub fn is_new_outbound_forbidden(&self) -> (r: bool)
        ensures
            r == self@.forbidden,
    {
        self.new_outbound_forbidden
    }

    /// Number of request-response protocols.
    pub fn num_request_protocols(&self) -> (r: usize)
        ensures
            r == self@.request_names.len(),
            r == self@.request_configs.len(),
    {
        self.request_protocols.len()
    }

    /// Number of notifications protocols.
    pub fn num_notifications_protocols(&self) -> (r: usize)
        ensures
            r == self@.notifications_names.len(),
    {
        self.notifications_protocols.len()
    }

    /// State of the first substream with identifier `id`, if any.
    pub fn substream_state(&self, id: u32) -> (r: Option<SubstreamState>)
        ensures
            match r {
                Some(st) => exists|i: int|
                    0 <= i < self@.substreams.len() && self@.substreams[i].id == id
                        && self@.substreams[i].state == st
                        && forall|j: int| 0 <= j < i ==> self@.substreams[j].id != id,
                None => forall|i: int|
                    0 <= i < self@.substreams.len() ==> self@.substreams[i].id != id,
            },
    {
        let mut i: usize = 0;
        while i < self.substreams.len()
            invariant
                i <= self.substreams@.len(),
                forall|j: int| 0 <= j < i ==> self.substreams@[j].id != id,
            decreases self.substreams@.len() - i,
        {
            if self.substreams[i].id == id {
                return Some(self.substreams[i].state);
            }
            i = i + 1;
        }
        None
    }

    /// Chooses the protocol of an incoming substream whose opener proposed `name`.
    pub fn select_inbound_protocol(&self, name: &[u8]) -> (r: Option<InboundProtocol>)
        ensures
            select_spec(self@, name@, r),
    {
        if bytes_eq(self.ping_protocol.as_str().as_bytes(), name) {
            return Some(InboundProtocol::Ping);
        }
        let mut i: usize = 0;
        while i < self.request_protocols.len()
            invariant
                i <= self@.request_names.len(),
                self@.request_names.len() == self.request_protocols@.len(),
                self@.request_inbound_allowed.len() == self.request_protocols@.len(),
                name@ != self@.ping_name,
                forall|j: int|
                    0 <= j < i ==> !(self@.request_inbound_allowed[j] && self@.request_names[j]
                        == name@),
            decreases self.request_protocols@.len() - i,
        {
            let p = &self.request_protocols[i];
            assert(self@.request_names[i as int] == encode_utf8(p.name@));
            assert(self@.request_inbound_allowed[i as int] == p.inbound_allowed);
            if p.inbound_allowed && bytes_eq(p.name.as_str().as_bytes(), name) {
                return Some(InboundProtocol::Request(i));
            }
            i = i + 1;
        }
        let mut k: usize = 0;
        while k < self.notifications_protocols.len()
            invariant
                k <= self@.notifications_names.len(),
                self@.notifications_names.len() == self.notifications_protocols@.len(),
                name@ != self@.ping_name,
                forall|j: int|
                    0 <= j < self@.request_names.len() ==> !(self@.request_inbound_allowed[j]
                        && self@.request_names[j] == name@),
                forall|j: int| 0 <= j < k ==> self@.notifications_names[j] != name@,
            decreases self.notifications_protocols@.len() - k,
        {
            assert(self@.notifications_names[k as int] == encode_utf8(
                self.notifications_protocols@[k as int].name@,
            ));
            if bytes_eq(self.notifications_protocols[k].name.as_str().as_bytes(), name) {
                return Some(InboundProtocol::Notifications(k));
            }
            k = k + 1;
        }
        None
    }

    /// Removes and returns the queued actions, oldest first.
    pub fn take_actions(&mut self) -> (r: Vec<Action>)
        ensures
            r@.map_values(|a: Action| a@) == old(self)@.actions,
            final(self)@ == with_parts(old(self)@, old(self)@.substreams, Seq::empty()),
    {
        let mut r: Vec<Action> = Vec::new();
        core::mem::swap(&mut self.actions, &mut r);
        proof {
            assert(self@.actions =~= Seq::<ActionView>::empty());
            assert(self@ == with_parts(old(self)@, old(self)@.substreams, Seq::empty()));
        }
        r
    }

    fn push_action(&mut self, a: Action)
        ensures
            final(self)@ == with_parts(old(self)@, old(self)@.substreams, old(self)@.actions.push(a@)),
    {
        let ghost v = a@;
        self.actions.push(a);
        proof {
            assert(self@.actions =~= old(self)@.actions.push(v));
        }
    }

    /// Puts each substream with identifier `id` and state `from` in state `to`. Returns true
    /// if there was one.
    fn retag_substreams(&mut self, id: u32, from: SubstreamState, to: SubstreamState) -> (found:
        bool)
        ensures
            final(self)@ == with_parts(old(self)@, retag(old(self)@.substreams, id, from, to), old(self)@.actions),
            found == has_entry(old(self)@.substreams, id, from),
    {
        let ghost subs0 = self.substreams@;
        let mut found = false;
        let mut i: usize = 0;
        while i < self.substreams.len()
            invariant
                i <= self.substreams@.len(),
                self.substreams@.len() == subs0.len(),
                forall|j: int| 0 <= j < i ==> self.substreams@[j] == (if subs0[j].id == id
                    && subs0[j].state == from {
                    SubstreamEntry { state: to, ..subs0[j] }
                } else {
                    subs0[j]
                }),
                forall|j: int| i <= j < subs0.len() ==> self.substreams@[j] == subs0[j],
                found == exists|j: int| 0 <= j < i && subs0[j].id == id && subs0[j].state == from,
                self.next_id == old(self).next_id,
                self.new_outbound_forbidden == old(self).new_outbound_forbidden,
                self.actions == old(self).actions,
                self.request_protocols == old(self).request_protocols,
                self.notifications_protocols == old(self).notifications_protocols,
                self.ping_protocol == old(self).ping_protocol,
                subs0 == old(self).substreams@,
            decreases self.substreams@.len() - i,
        {
            let e = self.substreams[i];
            if e.id == id && e.state == from {
                self.substreams.set(i, SubstreamEntry { state: to, ..e });
                found = true;
            }
            i = i + 1;
        }
        proof {
            assert(self.substreams@ =~= retag(subs0, id, from, to));
        }
        found
    }

    /// Takes an identifier for a new outgoing substream, or forbids opening outgoing
    /// substreams when identifiers are exhausted.
    fn allocate_id(&mut self) -> (r: Option<u32>)
        requires
            !old(self)@.forbidden,
        ensures
            ids_exhausted(old(self)@) ==> r is None && final(self)@ == forbid_spec(old(self)@),
            !ids_exhausted(old(self)@) ==> r == Some(old(self)@.next_id) && final(self)@
                == (ConnectionView { next_id: (old(self)@.next_id + 2) as u32, ..old(self)@ }),
    {
        if self.next_id > u32::MAX - 2 {
            self.new_outbound_forbidden = true;
            None
        } else {
            let id = self.next_id;
            self.next_id = self.next_id + 2;
            Some(id)
        }
    }

    fn push_substream(&mut self, e: SubstreamEntry)
        ensures
            final(self)@ == with_parts(old(self)@, old(self)@.substreams.push(e), old(self)@.actions),
    {
        self.substreams.push(e);
    }

    /// Forbids opening outgoing substreams from now on, as when the remote sends a frame that
    /// goes away. Returns true if they were allowed before.
    pub fn forbid_new_outbound(&mut self) -> (r: bool)
        ensures
            final(self)@ == forbid_spec(old(self)@),
            r == !old(self)@.forbidden,
    {
        let r = !self.new_outbound_forbidden;
        self.new_outbound_forbidden = true;
        r
    }

    /// Starts a request on the request-response protocol `protocol_index`. Returns the
    /// identifier of the new substream.
    pub fn add_request(&mut self, protocol_index: usize, request: &[u8], deadline: u64) -> (r: Result<
        SubstreamId,
        AddRequestError,
    >)
        requires
            protocol_index < old(self)@.request_configs.len(),
        ensures
            final(self)@ == add_request_spec(old(self)@, protocol_index, request@, deadline).0,
            match add_request_spec(old(self)@, protocol_index, request@, deadline).1 {
                Ok(id) => r == Ok::<SubstreamId, AddRequestError>(SubstreamId::single_stream_spec(id)),
                Err(e) => r == Err::<SubstreamId, AddRequestError>(e),
            },
    {
        if self.new_outbound_forbidden {
            return Err(AddRequestError::NewOutboundSubstreamsForbidden);
        }
        let cfg = self.request_protocols[protocol_index].inbound_config;
        if request.len() > cfg.max_size() {
            return Err(AddRequestError::RequestTooLarge);
        }
        let id = match self.allocate_id() {
            None => {
                return Err(AddRequestError::NewOutboundSubstreamsForbidden);
            },
            Some(id) => id,
        };
        let mut bytes = encode_negotiation(
            self.request_protocols[protocol_index].name.as_str().as_bytes(),
        );
        match cfg {
            ConfigRequestResponseIn::Empty => {},
            ConfigRequestResponseIn::Payload { .. } => {
                let frame = encode_frame(request);
                append_bytes(&mut bytes, frame.as_slice());
            },
        }
        proof {
            assert(bytes@ =~= negotiation_spec(old(self)@.request_names[protocol_index as int])
                + request_body_spec(old(self)@.request_configs[protocol_index as int], request@));
        }
        self.push_substream(
            SubstreamEntry { id, state: SubstreamState::RequestOut, protocol_index, deadline },
        );
        self.push_action(Action::Write { id, bytes });
        self.push_action(Action::Close { id });
        Ok(SubstreamId::single_stream(id))
    }

    /// Opens a notifications substream on the protocol `protocol_index`, sending `handshake`.
    /// Returns the identifier of the new substream, or `None` if opening outgoing substreams
    /// is forbidden.
    pub fn open_notifications_substream(
        &mut self,
        protocol_index: usize,
        handshake: &[u8],
        deadline: u64,
    ) -> (r: Option<SubstreamId>)
        requires
            protocol_index < old(self)@.notifications_names.len(),
        ensures
            final(self)@ == open_notifications_spec(old(self)@, protocol_index, handshake@, deadline).0,
            match open_notifications_spec(old(self)@, protocol_index, handshake@, deadline).1 {
                Some(id) => r == Some(SubstreamId::single_stream_spec(id)),
                None => r is None,
            },
    {
        if self.new_outbound_forbidden {
            return None;
        }
        let id = match self.allocate_id() {
            None => {
                return None;
            },
            Some(id) => id,
        };
        let mut bytes = encode_negotiation(
            self.notifications_protocols[protocol_index].name.as_str().as_bytes(),
        );
        let frame = encode_frame(handshake);
        append_bytes(&mut bytes, frame.as_slice());
        self.push_substream(
            SubstreamEntry {
                id,
                state: SubstreamState::NotificationsOutOpening,
                protocol_index,
                deadline,
            },
        );
        self.push_action(Action::Write { id, bytes });
        Some(SubstreamId::single_stream(id))
    }

    /// Takes the passing of time up to `now`: every outgoing request and every outgoing
    /// notifications substream being opened whose deadline is reached times out and is reset.
    /// Returns their identifiers, in order.
    pub fn expire(&mut self, now: u64) -> (r: Vec<u32>)
        ensures
            final(self)@ == expire_spec(old(self)@, now),
            r@ == expired_ids(old(self)@.substreams, now),
    {
        let ghost subs0 = self.substreams@;
        let ghost acts0 = self@.actions;
        let mut ids: Vec<u32> = Vec::new();
        let mut i: usize = 0;
        while i < self.substreams.len()
            invariant
                i <= self.substreams@.len(),
                self.substreams@.len() == subs0.len(),
                forall|j: int| 0 <= j < i ==> self.substreams@[j] == expire_entry(subs0[j], now),
                forall|j: int| i <= j < subs0.len() ==> self.substreams@[j] == subs0[j],
                self@.actions == acts0 + expired_resets(subs0.take(i as int), now),
                ids@ == expired_ids(subs0.take(i as int), now),
                self@.next_id == old(self)@.next_id,
                self@.forbidden == old(self)@.forbidden,
                self@.request_names == old(self)@.request_names,
                self@.request_configs == old(self)@.request_configs,
                self@.notifications_names == old(self)@.notifications_names,
                self@.request_inbound_allowed == old(self)@.request_inbound_allowed,
                self@.ping_name == old(self)@.ping_name,
                subs0 == old(self).substreams@,
                acts0 == old(self)@.actions,
            decreases self.substreams@.len() - i,
        {
            let e = self.substreams[i];
            proof {
                assert(subs0.take(i + 1).drop_last() =~= subs0.take(i as int));
                assert(subs0.take(i + 1).last() == e);
            }
            let timed_out = (e.state == SubstreamState::RequestOut || e.state
                == SubstreamState::NotificationsOutOpening) && now >= e.deadline;
            if timed_out {
                let state = if e.state == SubstreamState::RequestOut {
                    SubstreamState::RequestOutTimedOut
                } else {
                    SubstreamState::NotificationsOutTimedOut
                };
                self.substreams.set(i, SubstreamEntry { state, ..e });
                self.push_action(Action::Reset { id: e.id });
                ids.push(e.id);
                proof {
                    assert(self@.actions =~= acts0 + expired_resets(subs0.take(i + 1), now));
                }
            }
            i = i + 1;
        }
        proof {
            assert(subs0.take(i as int) =~= subs0);
            assert(self.substreams@ =~= subs0.map_values(|e: SubstreamEntry| expire_entry(e, now)));
        }
        ids
    }

    /// Earliest deadline of an outgoing request or of an outgoing notifications substream
    /// being opened, if any.
    pub fn wake_up_after(&self) -> (r: Option<u64>)
        ensures
            match r {
                Some(d) => is_pending_deadline(self@, d) && forall|i: int|
                    0 <= i < self@.substreams.len() && (self@.substreams[i].state
                        == SubstreamState::RequestOut || self@.substreams[i].state
                        == SubstreamState::NotificationsOutOpening) ==> d
                        <= self@.substreams[i].deadline,
                None => forall|d: u64| !is_pending_deadline(self@, d),
            },
    {
        let mut best: Option<u64> = None;
        let mut i: usize = 0;
        while i < self.substreams.len()
            invariant
                i <= self.substreams@.len(),
                match best {
                    Some(d) => is_pending_deadline(self@, d) && forall|j: int|
                        0 <= j < i && (self@.substreams[j].state == SubstreamState::RequestOut
                            || self@.substreams[j].state
                            == SubstreamState::NotificationsOutOpening) ==> d
                            <= self@.substreams[j].deadline,
                    None => forall|j: int|
                        0 <= j < i ==> !(self@.substreams[j].state == SubstreamState::RequestOut
                            || self@.substreams[j].state
                            == SubstreamState::NotificationsOutOpening),
                },
            decreases self.substreams@.len() - i,
        {
            let e = self.substreams[i];
            if e.state == SubstreamState::RequestOut || e.state
                == SubstreamState::NotificationsOutOpening {
                match best {
                    Some(d) => {
                        if e.deadline < d {
                            best = Some(e.deadline);
                        }
                    },
                    None => {
                        best = Some(e.deadline);
                    },
                }
            }
            i = i + 1;
        }
        proof {
            if best is None {
                assert forall|d: u64| !is_pending_deadline(self@, d) by {
                    if is_pending_deadline(self@, d) {
                        let k = choose|k: int|
                            0 <= k < self@.substreams.len() && (self@.substreams[k].state
                                == SubstreamState::RequestOut || self@.substreams[k].state
                                == SubstreamState::NotificationsOutOpening)
                                && self@.substreams[k].deadline == d;
                        assert(!(self@.substreams[k].state == SubstreamState::RequestOut
                            || self@.substreams[k].state
                            == SubstreamState::NotificationsOutOpening));
                    }
                }
            }
        }
        best
    }

    /// Records a request that the remote sent on the substream `id`, on the request-response
    /// protocol `protocol_index`.
    pub fn inbound_request(&mut self, id: u32, protocol_index: usize)
        ensures
            final(self)@ == inbound_spec(old(self)@, id, SubstreamState::RequestIn, protocol_index),
    {
        self.push_substream(
            SubstreamEntry { id, state: SubstreamState::RequestIn, protocol_index, deadline: 0 },
        );
    }

    /// Records that the remote opened the notifications substream `id`, on the protocol
    /// `protocol_index`.
    pub fn inbound_notifications_open(&mut self, id: u32, protocol_index: usize)
        ensures
            final(self)@ == inbound_spec(
                old(self)@,
                id,
                SubstreamState::NotificationsInWaitAnswer,
                protocol_index,
            ),
    {
        self.push_substream(
            SubstreamEntry {
                id,
                state: SubstreamState::NotificationsInWaitAnswer,
                protocol_index,
                deadline: 0,
            },
        );
    }

    /// Records that the remote closed or reset the substream `id`. Returns true if it was an
    /// incoming notifications substream that awaited an answer, which is now cancelled.
    pub fn remote_cancel(&mut self, id: u32) -> (r: bool)
        ensures
            final(self)@ == remote_cancel_spec(old(self)@, id),
            r == has_entry(old(self)@.substreams, id, SubstreamState::NotificationsInWaitAnswer),
    {
        self.retag_substreams(
            id,
            SubstreamState::NotificationsInWaitAnswer,
            SubstreamState::NotificationsInCancelled,
        )
    }

    /// Records that the response to the outgoing request `id`, or why there is none, was
    /// received. Returns true if the request was awaiting it.
    pub fn response_received(&mut self, id: u32) -> (r: bool)
        ensures
            final(self)@ == with_parts(
                old(self)@,
                retag(old(self)@.substreams, id, SubstreamState::RequestOut, SubstreamState::RequestOutDone),
                old(self)@.actions,
            ),
            r == has_entry(old(self)@.substreams, id, SubstreamState::RequestOut),
    {
        self.retag_substreams(id, SubstreamState::RequestOut, SubstreamState::RequestOutDone)
    }

    /// Records that the remote answered the opening of the outgoing notifications substream
    /// `id`: with its handshake if `accepted`, else by refusing it. Returns true if the
    /// substream was being opened.
    pub fn handshake_received(&mut self, id: u32, accepted: bool) -> (r: bool)
        ensures
            final(self)@ == with_parts(
                old(self)@,
                retag(
                    old(self)@.substreams,
                    id,
                    SubstreamState::NotificationsOutOpening,
                    opening_outcome(accepted),
                ),
                old(self)@.actions,
            ),
            r == has_entry(old(self)@.substreams, id, SubstreamState::NotificationsOutOpening),
    {
        let to = if accepted {
            SubstreamState::NotificationsOutOpen
        } else {
            SubstreamState::NotificationsOutFailed
        };
        self.retag_substreams(id, SubstreamState::NotificationsOutOpening, to)
    }

    /// Queues `notification` on the outgoing notifications substream `id`, if it is open.
    /// Returns true if it was.
    pub fn write_notification_unbounded(&mut self, id: u32, notification: &[u8]) -> (r: bool)
        ensures
            final(self)@ == write_notification_spec(old(self)@, id, notification@),
            r == has_entry(old(self)@.substreams, id, SubstreamState::NotificationsOutOpen),
    {
        if self.substream_state_any(id, SubstreamState::NotificationsOutOpen) {
            let bytes = encode_frame(notification);
            self.push_action(Action::Write { id, bytes });
            true
        } else {
            false
        }
    }

    /// Returns true if some substream has identifier `id` and state `st`.
    pub fn substream_state_any(&self, id: u32, st: SubstreamState) -> (r: bool)
        ensures
            r == has_entry(self@.substreams, id, st),
    {
        let mut i: usize = 0;
        while i < self.substreams.len()
            invariant
                i <= self.substreams@.len(),
                forall|j: int|
                    0 <= j < i ==> !(self.substreams@[j].id == id && self.substreams@[j].state
                        == st),
            decreases self.substreams@.len() - i,
        {
            let e = self.substreams[i];
            if e.id == id && e.state == st {
                return true;
            }
            i = i + 1;
        }
        false
    }

    /// Accepts the incoming notifications substream `id`, sending `handshake` back.
    pub fn accept_in_notifications_substream(&mut self, id: u32, handshake: &[u8])
        ensures
            final(self)@ == accept_spec(old(self)@, id, handshake@),
    {
        let found = self.retag_substreams(
            id,
            SubstreamState::NotificationsInWaitAnswer,
            SubstreamState::NotificationsInAccepted,
        );
        if found {
            let bytes = encode_frame(handshake);
            self.push_action(Action::Write { id, bytes });
        } else {
            proof {
                lemma_retag_noop(
                    old(self)@.substreams,
                    id,
                    SubstreamState::NotificationsInWaitAnswer,
                    SubstreamState::NotificationsInAccepted,
                );
            }
        }
    }

    /// Rejects the incoming notifications substream `id`.
    pub fn reject_in_notifications_substream(&mut self, id: u32)
        ensures
            final(self)@ == reject_spec(old(self)@, id),
    {
        let found = self.retag_substreams(
            id,
            SubstreamState::NotificationsInWaitAnswer,
            SubstreamState::NotificationsInRefused,
        );
        if found {
            self.push_action(Action::Reset { id });
        } else {
            proof {
                lemma_retag_noop(
                    old(self)@.substreams,
                    id,
                    SubstreamState::NotificationsInWaitAnswer,
                    SubstreamState::NotificationsInRefused,
                );
            }
        }
    }

    /// Closes the notifications substream `id`, in either direction.
    pub fn close_notifications_substream(&mut self, id: u32)
        ensures
            final(self)@ == close_spec(old(self)@, id),
    {
        let out = self.retag_substreams(
            id,
            SubstreamState::NotificationsOutOpen,
            SubstreamState::NotificationsOutClosed,
        );
        let ghost mid = self.substreams@;
        let inb = self.retag_substreams(
            id,
            SubstreamState::NotificationsInAccepted,
            SubstreamState::NotificationsInClosed,
        );
        proof {
            if !out && has_entry(mid, id, SubstreamState::NotificationsInAccepted) {
                let i = choose|i: int|
                    0 <= i < mid.len() && mid[i].id == id && mid[i].state
                        == SubstreamState::NotificationsInAccepted;
                assert(old(self)@.substreams[i] == mid[i]);
            }
            if !out {
                lemma_retag_noop(
                    old(self)@.substreams,
                    id,
                    SubstreamState::NotificationsOutOpen,
                    SubstreamState::NotificationsOutClosed,
                );
            }
            if !inb {
                lemma_retag_noop(
                    mid,
                    id,
                    SubstreamState::NotificationsInAccepted,
                    SubstreamState::NotificationsInClosed,
                );
            }
            if out && !has_entry(old(self)@.substreams, id, SubstreamState::NotificationsInAccepted) {
                if has_entry(mid, id, SubstreamState::NotificationsInAccepted) {
                    let i = choose|i: int|
                        0 <= i < mid.len() && mid[i].id == id && mid[i].state
                            == SubstreamState::NotificationsInAccepted;
                    assert(old(self)@.substreams[i].id == id);
                }
            }
        }
        if out || inb {
            self.push_action(Action::Close { id });
        }
    }

    /// Answers the incoming request `id`: `Ok` sends the response, `Err` refuses the request.
    pub fn respond_in_request(&mut self, id: u32, response: Result<&[u8], ()>) -> (r: Result<
        (),
        RespondInRequestError,
    >)
        ensures
            final(self)@ == respond_spec(
                old(self)@,
                id,
                match response {
                    Ok(b) => Ok(b@),
                    Err(()) => Err(()),
                },
            ).0,
            r == respond_spec(
                old(self)@,
                id,
                match response {
                    Ok(b) => Ok(b@),
                    Err(()) => Err(()),
                },
            ).1,
    {
        let found = self.retag_substreams(
            id,
            SubstreamState::RequestIn,
            SubstreamState::RequestInAnswered,
        );
        if !found {
            proof {
                lemma_retag_noop(
                    old(self)@.substreams,
                    id,
                    SubstreamState::RequestIn,
                    SubstreamState::RequestInAnswered,
                );
            }
            return Err(RespondInRequestError::SubstreamClosed);
        }
        match response {
            Ok(b) => {
                let bytes = encode_frame(b);
                self.push_action(Action::Write { id, bytes });
                self.push_action(Action::Close { id });
            },
            Err(()) => {
                self.push_action(Action::Reset { id });
            },
        }
        Ok(())
    }
}

proof fn lemma_retag_noop(subs: Seq<SubstreamEntry>, id: u32, from: SubstreamState, to: SubstreamState)
    requires
        !has_entry(subs, id, from),
    ensures
        retag(subs, id, from, to) == subs,
{
    assert forall|i: int| 0 <= i < subs.len() implies retag(subs, id, from, to)[i] == subs[i] by {
        assert(!(subs[i].id == id && subs[i].state == from));
    }
    assert(retag(subs, id, from, to) =~= subs);
}

proof fn lemma_retag_clears(
    subs: Seq<SubstreamEntry>,
    id: u32,
    from: SubstreamState,
    to: SubstreamState,
    other: SubstreamState,
)
    requires
        from != to,
        !has_entry(subs, id, other) || other == to,
        other != from,
    ensures
        !has_entry(retag(subs, id, from, to), id, from),
        other != to ==> !has_entry(retag(subs, id, from, to), id, other),
        retag(subs, id, from, to).len() == subs.len(),
{
    let r = retag(subs, id, from, to);
    if has_entry(r, id, from) {
        let i = choose|i: int| 0 <= i < r.len() && r[i].id == id && r[i].state == from;
        assert(r[i] == (if subs[i].id == id && subs[i].state == from {
            SubstreamEntry { state: to, ..subs[i] }
        } else {
            subs[i]
        }));
    }
    if other != to && has_entry(r, id, other) {
        let i = choose|i: int| 0 <= i < r.len() && r[i].id == id && r[i].state == other;
        assert(r[i] == (if subs[i].id == id && subs[i].state == from {
            SubstreamEntry { state: to, ..subs[i] }
        } else {
            subs[i]
        }));
        assert(has_entry(subs, id, other));
    }
}

/// Closing a notifications substream twice does the same as closing it once.
pub proof fn lemma_close_idempotent(c: ConnectionView, id: u32)
    ensures
        close_spec(close_spec(c, id), id) == close_spec(c, id),
{
    let once = close_spec(c, id);
    if has_entry(c.substreams, id, SubstreamState::NotificationsOutOpen) || has_entry(
        c.substreams,
        id,
        SubstreamState::NotificationsInAccepted,
    ) {
        let s1 = retag(
            c.substreams,
            id,
            SubstreamState::NotificationsOutOpen,
            SubstreamState::NotificationsOutClosed,
        );
        lemma_retag_clears(
            c.substreams,
            id,
            SubstreamState::NotificationsOutOpen,
            SubstreamState::NotificationsOutClosed,
            SubstreamState::NotificationsOutClosed,
        );
        lemma_retag_clears(
            s1,
            id,
            SubstreamState::NotificationsInAccepted,
            SubstreamState::NotificationsInClosed,
            SubstreamState::NotificationsOutOpen,
        );
        assert(!has_entry(once.substreams, id, SubstreamState::NotificationsOutOpen));
        assert(!has_entry(once.substreams, id, SubstreamState::NotificationsInAccepted));
    }
}

} // verus!

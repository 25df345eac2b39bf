use established::config::{Config, ConfigNotifications, ConfigRequestResponse, ConfigRequestResponseIn};
use established::connection::{Action, Connection, InboundProtocol, SubstreamState};
use established::event::{AddRequestError, RespondInRequestError};
use established::framing::{encode_frame, encode_line};
use established::substream::{read_notifications, read_request, read_response};
use established::substream_id::SubstreamId;
use std::time::Duration;

fn config() -> Config<Duration> {
    Config {
        first_out_ping: Duration::new(60, 0),
        notifications_protocols: vec![ConfigNotifications {
            max_handshake_size: 1024,
            max_notification_size: 1024,
            name: "test-notif-protocol".to_owned(),
        }],
        request_protocols: vec![
            ConfigRequestResponse {
                inbound_allowed: true,
                inbound_config: ConfigRequestResponseIn::Payload { max_size: 128 },
                max_response_size: 1024,
                name: "test-request-protocol".to_owned(),
            },
            ConfigRequestResponse {
                inbound_allowed: false,
                inbound_config: ConfigRequestResponseIn::Empty,
                max_response_size: 1024,
                name: "empty-request-protocol".to_owned(),
            },
        ],
        max_inbound_substreams: 64,
        ping_interval: Duration::from_secs(20),
        ping_protocol: "ping".to_owned(),
        ping_timeout: Duration::from_secs(20),
        randomness_seed: [0; 32],
    }
}

fn negotiation(name: &[u8]) -> Vec<u8> {
    let mut out = encode_line(b"/multistream/1.0.0");
    out.extend_from_slice(&encode_line(name));
    out
}

fn write_of(action: &Action) -> (u32, Vec<u8>) {
    match action {
        Action::Write { id, bytes } => (*id, bytes.clone()),
        other => panic!("{:?}", other),
    }
}

#[test]
fn request_bytes_are_negotiation_then_frame() {
    let mut c = Connection::new(config(), true);
    let id = c.add_request(0, b"request payload", 5).unwrap();
    assert_eq!(id, SubstreamId::single_stream(1));
    assert_eq!(c.substream_state(1), Some(SubstreamState::RequestOut));
    let actions = c.take_actions();
    assert_eq!(actions.len(), 2);
    let mut expected = negotiation(b"test-request-protocol");
    expected.extend_from_slice(&encode_frame(b"request payload"));
    assert_eq!(write_of(&actions[0]), (1, expected));
    assert!(matches!(actions[1], Action::Close { id: 1 }));
    assert!(c.take_actions().is_empty());
}

#[test]
fn outbound_ids_ascend_by_side() {
    let mut dialer = Connection::new(config(), true);
    assert_eq!(dialer.add_request(0, b"a", 5), Ok(SubstreamId::single_stream(1)));
    assert_eq!(dialer.add_request(0, b"b", 5), Ok(SubstreamId::single_stream(3)));
    let mut listener = Connection::new(config(), false);
    assert_eq!(listener.open_notifications_substream(0, b"hello", 5), Some(SubstreamId::single_stream(2)));
    assert_eq!(listener.add_request(0, b"", 5), Ok(SubstreamId::single_stream(4)));
}

#[test]
fn empty_request_protocol_sends_no_frame() {
    let mut c = Connection::new(config(), true);
    assert!(c.add_request(1, b"", 5).is_ok());
    let actions = c.take_actions();
    assert_eq!(write_of(&actions[0]), (1, negotiation(b"empty-request-protocol")));
    assert_eq!(c.add_request(1, b"x", 5), Err(AddRequestError::RequestTooLarge));
}

#[test]
fn request_too_large() {
    let mut c = Connection::new(config(), true);
    let big = vec![7u8; 129];
    assert_eq!(c.add_request(0, &big, 5), Err(AddRequestError::RequestTooLarge));
    assert!(c.take_actions().is_empty());
    assert!(c.add_request(0, &big[..128], 5).is_ok());
}

#[test]
fn forbidden_outbound_stays_forbidden() {
    let mut c = Connection::new(config(), true);
    assert!(!c.is_new_outbound_forbidden());
    assert!(c.forbid_new_outbound());
    assert!(!c.forbid_new_outbound());
    assert_eq!(
        c.add_request(0, b"request payload", 5),
        Err(AddRequestError::NewOutboundSubstreamsForbidden)
    );
    assert_eq!(c.open_notifications_substream(0, b"hello", 5), None);
    c.inbound_notifications_open(2, 0);
    c.accept_in_notifications_substream(2, b"hello back");
    c.close_notifications_substream(2);
    let _ = c.take_actions();
    assert!(c.is_new_outbound_forbidden());
    assert_eq!(
        c.add_request(0, b"", 5),
        Err(AddRequestError::NewOutboundSubstreamsForbidden)
    );
    assert_eq!(c.open_notifications_substream(0, b"", 5), None);
}

#[test]
fn notifications_open_sends_handshake() {
    let mut c = Connection::new(config(), true);
    let id = c.open_notifications_substream(0, b"hello", 5).unwrap();
    assert_eq!(id, SubstreamId::single_stream(1));
    assert_eq!(c.substream_state(1), Some(SubstreamState::NotificationsOutOpening));
    let actions = c.take_actions();
    assert_eq!(actions.len(), 1);
    let mut expected = negotiation(b"test-notif-protocol");
    expected.extend_from_slice(&encode_frame(b"hello"));
    assert_eq!(write_of(&actions[0]), (1, expected));
}

#[test]
fn accept_then_close_twice_is_close_once() {
    let mut c = Connection::new(config(), false);
    c.inbound_notifications_open(1, 0);
    assert_eq!(c.substream_state(1), Some(SubstreamState::NotificationsInWaitAnswer));
    c.accept_in_notifications_substream(1, b"hello back");
    assert_eq!(c.substream_state(1), Some(SubstreamState::NotificationsInAccepted));
    c.close_notifications_substream(1);
    c.close_notifications_substream(1);
    assert_eq!(c.substream_state(1), Some(SubstreamState::NotificationsInClosed));
    let actions = c.take_actions();
    assert_eq!(actions.len(), 2);
    assert_eq!(write_of(&actions[0]), (1, encode_frame(b"hello back")));
    assert!(matches!(actions[1], Action::Close { id: 1 }));
}

#[test]
fn close_of_unknown_substream_does_nothing() {
    let mut c = Connection::new(config(), false);
    c.close_notifications_substream(9);
    assert!(c.take_actions().is_empty());
    assert_eq!(c.substream_state(9), None);
}

#[test]
fn reject_resets_substream() {
    let mut c = Connection::new(config(), false);
    c.inbound_notifications_open(1, 0);
    c.reject_in_notifications_substream(1);
    assert_eq!(c.substream_state(1), Some(SubstreamState::NotificationsInRefused));
    c.accept_in_notifications_substream(1, b"too late");
    let actions = c.take_actions();
    assert_eq!(actions.len(), 1);
    assert!(matches!(actions[0], Action::Reset { id: 1 }));
    assert_eq!(c.substream_state(1), Some(SubstreamState::NotificationsInRefused));
}

#[test]
fn remote_cancel_before_answer() {
    let mut c = Connection::new(config(), false);
    c.inbound_notifications_open(1, 0);
    assert!(c.remote_cancel(1));
    assert_eq!(c.substream_state(1), Some(SubstreamState::NotificationsInCancelled));
    assert!(!c.remote_cancel(1));
    c.accept_in_notifications_substream(1, b"hello back");
    c.reject_in_notifications_substream(1);
    assert!(c.take_actions().is_empty());
}

#[test]
fn respond_with_payload() {
    let mut c = Connection::new(config(), false);
    c.inbound_request(1, 0);
    assert_eq!(c.respond_in_request(1, Ok(b"response payload")), Ok(()));
    let actions = c.take_actions();
    assert_eq!(actions.len(), 2);
    assert_eq!(write_of(&actions[0]), (1, encode_frame(b"response payload")));
    assert!(matches!(actions[1], Action::Close { id: 1 }));
    assert_eq!(
        c.respond_in_request(1, Ok(b"again")),
        Err(RespondInRequestError::SubstreamClosed)
    );
}

#[test]
fn respond_with_refusal_resets() {
    let mut c = Connection::new(config(), false);
    c.inbound_request(1, 0);
    assert_eq!(c.respond_in_request(1, Err(())), Ok(()));
    let actions = c.take_actions();
    assert_eq!(actions.len(), 1);
    assert!(matches!(actions[0], Action::Reset { id: 1 }));
}

#[test]
fn respond_to_unknown_request() {
    let mut c = Connection::new(config(), false);
    assert_eq!(
        c.respond_in_request(5, Err(())),
        Err(RespondInRequestError::SubstreamClosed)
    );
}

#[test]
fn inbound_protocol_selection() {
    let c = Connection::new(config(), false);
    assert_eq!(c.select_inbound_protocol(b"ping"), Some(InboundProtocol::Ping));
    assert_eq!(
        c.select_inbound_protocol(b"test-request-protocol"),
        Some(InboundProtocol::Request(0))
    );
    assert_eq!(
        c.select_inbound_protocol(b"test-notif-protocol"),
        Some(InboundProtocol::Notifications(0))
    );
    assert_eq!(c.select_inbound_protocol(b"empty-request-protocol"), None);
    assert_eq!(c.select_inbound_protocol(b"unknown-protocol"), None);
    assert_eq!(c.num_request_protocols(), 2);
    assert_eq!(c.num_notifications_protocols(), 1);
}

#[test]
fn request_times_out_at_deadline() {
    let mut c = Connection::new(config(), true);
    let _ = c.add_request(0, b"request payload", 5);
    let _ = c.take_actions();
    assert_eq!(c.wake_up_after(), Some(5));
    assert!(c.expire(4).is_empty());
    assert_eq!(c.expire(6), vec![1]);
    assert_eq!(c.substream_state(1), Some(SubstreamState::RequestOutTimedOut));
    let actions = c.take_actions();
    assert_eq!(actions.len(), 1);
    assert!(matches!(actions[0], Action::Reset { id: 1 }));
    assert_eq!(c.wake_up_after(), None);
    assert!(c.expire(100).is_empty());
}

#[test]
fn notifications_open_times_out() {
    let mut c = Connection::new(config(), true);
    let _ = c.open_notifications_substream(0, b"hello", 5);
    let _ = c.add_request(0, b"later", 30);
    assert_eq!(c.wake_up_after(), Some(5));
    assert_eq!(c.expire(10), vec![1]);
    assert_eq!(c.substream_state(1), Some(SubstreamState::NotificationsOutTimedOut));
    assert_eq!(c.substream_state(3), Some(SubstreamState::RequestOut));
    assert_eq!(c.wake_up_after(), Some(30));
}

#[test]
fn inbound_substreams_have_no_deadline() {
    let mut c = Connection::new(config(), false);
    c.inbound_request(1, 0);
    c.inbound_notifications_open(3, 0);
    assert_eq!(c.wake_up_after(), None);
    assert!(c.expire(u64::MAX).is_empty());
}

#[test]
fn outbound_notifications_open_then_close_twice() {
    let mut c = Connection::new(config(), true);
    let _ = c.open_notifications_substream(0, b"hello", 5);
    c.close_notifications_substream(1);
    assert_eq!(c.substream_state(1), Some(SubstreamState::NotificationsOutOpening));
    assert!(c.handshake_received(1, true));
    assert!(!c.handshake_received(1, true));
    assert_eq!(c.substream_state(1), Some(SubstreamState::NotificationsOutOpen));
    assert!(c.expire(10).is_empty());
    let _ = c.take_actions();
    c.close_notifications_substream(1);
    c.close_notifications_substream(1);
    assert_eq!(c.substream_state(1), Some(SubstreamState::NotificationsOutClosed));
    let actions = c.take_actions();
    assert_eq!(actions.len(), 1);
    assert!(matches!(actions[0], Action::Close { id: 1 }));
}

#[test]
fn outbound_notifications_refused() {
    let mut c = Connection::new(config(), true);
    let _ = c.open_notifications_substream(0, b"hello", 5);
    assert!(c.handshake_received(1, false));
    assert_eq!(c.substream_state(1), Some(SubstreamState::NotificationsOutFailed));
    assert_eq!(c.wake_up_after(), None);
}

#[test]
fn response_stops_timer() {
    let mut c = Connection::new(config(), true);
    let _ = c.add_request(0, b"request payload", 5);
    assert!(c.response_received(1));
    assert!(!c.response_received(1));
    assert_eq!(c.substream_state(1), Some(SubstreamState::RequestOutDone));
    assert!(c.expire(6).is_empty());
}

#[test]
fn notifications_written_in_order_read_back() {
    let mut c = Connection::new(config(), true);
    let _ = c.open_notifications_substream(0, b"hello", 5);
    assert!(!c.write_notification_unbounded(1, b"too early"));
    assert!(c.handshake_received(1, true));
    let _ = c.take_actions();
    for n in [&b"notif 1"[..], b"notif 2", b"notif 3"] {
        assert!(c.write_notification_unbounded(1, n));
    }
    let mut wire = Vec::new();
    for a in c.take_actions() {
        let (id, bytes) = write_of(&a);
        assert_eq!(id, 1);
        wire.extend_from_slice(&bytes);
    }
    let (notifs, used, err) = read_notifications(&wire, 1024);
    assert_eq!(notifs, vec![b"notif 1".to_vec(), b"notif 2".to_vec(), b"notif 3".to_vec()]);
    assert_eq!(used, wire.len());
    assert_eq!(err, None);
    c.close_notifications_substream(1);
    assert!(!c.write_notification_unbounded(1, b"after close"));
}

#[test]
fn request_and_response_read_back() {
    let mut alice = Connection::new(config(), true);
    let _ = alice.add_request(0, b"request payload", 5);
    let actions = alice.take_actions();
    let (_, bytes) = write_of(&actions[0]);
    let skip = negotiation(b"test-request-protocol").len();
    let cfg = ConfigRequestResponseIn::Payload { max_size: 128 };
    assert_eq!(read_request(&bytes[skip..], cfg, true), Some(Ok(b"request payload".to_vec())));

    let mut bob = Connection::new(config(), false);
    bob.inbound_request(1, 0);
    assert_eq!(bob.respond_in_request(1, Ok(b"response payload")), Ok(()));
    let actions = bob.take_actions();
    let (_, bytes) = write_of(&actions[0]);
    assert_eq!(read_response(&bytes, 1024, true), Some(Ok(b"response payload".to_vec())));
}

use established::config::ConfigRequestResponseIn;
use established::event::{InboundError, NotificationsInClosedErr, NotificationsOutErr, RequestError};
use established::framing::encode_frame;
use established::substream::{read_handshake, read_notifications, read_request, read_response};

#[test]
fn response_round_trip() {
    let frame = encode_frame(b"response payload");
    assert_eq!(read_response(&frame, 1024, false), Some(Ok(b"response payload".to_vec())));
    assert_eq!(read_response(&frame, 1024, true), Some(Ok(b"response payload".to_vec())));
}

#[test]
fn response_pending_then_closed() {
    let frame = encode_frame(b"response payload");
    assert_eq!(read_response(&frame[..5], 1024, false), None);
    assert_eq!(read_response(&frame[..5], 1024, true), Some(Err(RequestError::SubstreamClosed)));
    assert_eq!(read_response(&[], 1024, true), Some(Err(RequestError::SubstreamClosed)));
}

#[test]
fn response_errors() {
    let frame = encode_frame(&vec![1u8; 1025]);
    assert_eq!(read_response(&frame, 1024, false), Some(Err(RequestError::ResponseTooLarge)));
    assert_eq!(read_response(&[0xff; 10], 1024, false), Some(Err(RequestError::InvalidResponseSize)));
}

#[test]
fn request_with_payload() {
    let cfg = ConfigRequestResponseIn::Payload { max_size: 128 };
    let frame = encode_frame(b"request payload");
    assert_eq!(read_request(&frame, cfg, false), Some(Ok(b"request payload".to_vec())));
    assert_eq!(read_request(&frame[..3], cfg, false), None);
    assert_eq!(read_request(&frame[..3], cfg, true), Some(Err(InboundError::SubstreamClosed)));
    let big = encode_frame(&vec![0u8; 129]);
    assert_eq!(read_request(&big, cfg, false), Some(Err(InboundError::InvalidRequest)));
}

#[test]
fn empty_request() {
    let cfg = ConfigRequestResponseIn::Empty;
    assert_eq!(read_request(&[], cfg, false), None);
    assert_eq!(read_request(&[], cfg, true), Some(Ok(Vec::new())));
    assert_eq!(read_request(&[0], cfg, true), Some(Err(InboundError::InvalidRequest)));
}

#[test]
fn handshake_accepted_or_refused() {
    let frame = encode_frame(b"hello back");
    assert_eq!(read_handshake(&frame, 1024, false), Some(Ok(b"hello back".to_vec())));
    assert_eq!(read_handshake(&[], 1024, false), None);
    assert_eq!(read_handshake(&[], 1024, true), Some(Err(NotificationsOutErr::RefusedHandshake)));
    assert_eq!(read_handshake(&frame, 5, false), Some(Err(NotificationsOutErr::InvalidHandshake)));
}

#[test]
fn notifications_in_order() {
    let mut bytes = Vec::new();
    for n in [&b"notif 1"[..], b"notif 2", b"notif 3"] {
        bytes.extend_from_slice(&encode_frame(n));
    }
    let (notifs, used, err) = read_notifications(&bytes, 1024);
    assert_eq!(notifs, vec![b"notif 1".to_vec(), b"notif 2".to_vec(), b"notif 3".to_vec()]);
    assert_eq!(used, bytes.len());
    assert_eq!(err, None);
}

#[test]
fn notifications_partial_frame_kept() {
    let mut bytes = encode_frame(b"notif");
    let first = bytes.len();
    bytes.extend_from_slice(&encode_frame(b"second")[..3]);
    let (notifs, used, err) = read_notifications(&bytes, 1024);
    assert_eq!(notifs, vec![b"notif".to_vec()]);
    assert_eq!(used, first);
    assert_eq!(err, None);
}

#[test]
fn notification_too_large_stops_reading() {
    let mut bytes = encode_frame(b"ok");
    bytes.extend_from_slice(&encode_frame(&vec![9u8; 20]));
    bytes.extend_from_slice(&encode_frame(b"never"));
    let (notifs, used, err) = read_notifications(&bytes, 10);
    assert_eq!(notifs, vec![b"ok".to_vec()]);
    assert_eq!(used, 3);
    assert_eq!(err, Some(NotificationsInClosedErr::NotificationTooLarge));
}

#[test]
fn notification_bad_length_prefix() {
    let (notifs, used, err) = read_notifications(&[0xff; 11], 10);
    assert!(notifs.is_empty());
    assert_eq!(used, 0);
    assert_eq!(err, Some(NotificationsInClosedErr::InvalidFrame));
}

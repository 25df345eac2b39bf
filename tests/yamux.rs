use established::yamux::{Outcome, Yamux, YamuxError, CREDIT_THRESHOLD, INITIAL_WINDOW};
use established::yamux_header::{FrameType, Header, FLAG_ACK, FLAG_FIN, FLAG_RST, FLAG_SYN};

fn header(frame_type: FrameType, flags: u16, stream_id: u32, length: u32) -> Header {
    Header { frame_type, flags, stream_id, length }
}

#[test]
fn inbound_syn_opens_substream() {
    let mut y = Yamux::new(true, 4);
    let r = y.on_header(&header(FrameType::Data, FLAG_SYN, 2, 10));
    assert_eq!(
        r,
        Ok(Outcome::Substream { id: 2, opened: true, data: 10, fin: false, reset: false })
    );
    assert_eq!(y.num_inbound(), 1);
    let i = y.find(2).unwrap();
    let s = y.get(i);
    assert!(s.inbound);
    assert_eq!(s.recv_window, INITIAL_WINDOW - 10);
}

#[test]
fn duplicate_syn_is_fatal() {
    let mut y = Yamux::new(true, 4);
    assert!(y.on_header(&header(FrameType::WindowUpdate, FLAG_SYN, 2, 0)).is_ok());
    assert_eq!(
        y.on_header(&header(FrameType::Data, FLAG_SYN, 2, 0)),
        Err(YamuxError::DuplicateSyn)
    );
}

#[test]
fn syn_with_local_parity_is_fatal() {
    let mut dialer = Yamux::new(true, 4);
    assert_eq!(
        dialer.on_header(&header(FrameType::Data, FLAG_SYN, 3, 0)),
        Err(YamuxError::InvalidStreamId)
    );
    let mut listener = Yamux::new(false, 4);
    assert_eq!(
        listener.on_header(&header(FrameType::Data, FLAG_SYN, 0, 0)),
        Err(YamuxError::InvalidStreamId)
    );
    assert!(listener.on_header(&header(FrameType::Data, FLAG_SYN, 3, 0)).is_ok());
}

#[test]
fn ack_for_unknown_substream_is_fatal() {
    let mut y = Yamux::new(false, 4);
    assert_eq!(
        y.on_header(&header(FrameType::WindowUpdate, FLAG_ACK, 1, 0)),
        Err(YamuxError::UnknownAck)
    );
    assert_eq!(
        y.on_header(&header(FrameType::Data, 0, 1, 5)),
        Ok(Outcome::Unknown { discard: 5 })
    );
}

#[test]
fn inbound_past_limit_is_rejected() {
    let mut y = Yamux::new(false, 1);
    assert!(y.on_header(&header(FrameType::Data, FLAG_SYN, 1, 0)).is_ok());
    assert_eq!(
        y.on_header(&header(FrameType::Data, FLAG_SYN, 3, 7)),
        Ok(Outcome::Rejected { id: 3, discard: 7 })
    );
    assert_eq!(y.find(3), None);
    assert_eq!(
        y.on_header(&header(FrameType::Data, FLAG_RST, 1, 0)),
        Ok(Outcome::Substream { id: 1, opened: false, data: 0, fin: false, reset: true })
    );
    assert_eq!(y.num_inbound(), 0);
    assert!(matches!(
        y.on_header(&header(FrameType::Data, FLAG_SYN, 5, 0)),
        Ok(Outcome::Substream { id: 5, opened: true, .. })
    ));
}

#[test]
fn window_overrun_is_fatal() {
    let mut y = Yamux::new(false, 4);
    assert!(y.on_header(&header(FrameType::Data, FLAG_SYN, 1, INITIAL_WINDOW)).is_ok());
    assert_eq!(
        y.on_header(&header(FrameType::Data, 0, 1, 1)),
        Err(YamuxError::WindowOverrun)
    );
    assert_eq!(
        y.on_header(&header(FrameType::Data, FLAG_SYN, 3, INITIAL_WINDOW + 1)),
        Err(YamuxError::WindowOverrun)
    );
}

#[test]
fn credit_returned_past_threshold() {
    let mut y = Yamux::new(false, 4);
    assert!(y.on_header(&header(FrameType::Data, FLAG_SYN, 1, INITIAL_WINDOW)).is_ok());
    let i = y.find(1).unwrap();
    assert_eq!(y.consume(i, CREDIT_THRESHOLD), None);
    assert_eq!(y.get(i).unacked, CREDIT_THRESHOLD);
    let update = y.consume(i, 1).unwrap();
    assert_eq!(update, header(FrameType::WindowUpdate, 0, 1, CREDIT_THRESHOLD + 1));
    assert_eq!(y.get(i).recv_window, CREDIT_THRESHOLD + 1);
    assert_eq!(y.get(i).unacked, 0);
}

#[test]
fn window_update_and_fin() {
    let mut y = Yamux::new(true, 4);
    assert!(y.add_outbound(1));
    assert!(!y.add_outbound(1));
    assert_eq!(
        y.on_header(&header(FrameType::WindowUpdate, FLAG_ACK | FLAG_FIN, 1, 1000)),
        Ok(Outcome::Substream { id: 1, opened: false, data: 0, fin: true, reset: false })
    );
    let s = y.get(y.find(1).unwrap());
    assert_eq!(s.send_window, INITIAL_WINDOW as u64 + 1000);
    assert!(s.remote_closed);
}

#[test]
fn ping_is_echoed_and_go_away_recorded() {
    let mut y = Yamux::new(true, 4);
    assert_eq!(
        y.on_header(&header(FrameType::Ping, FLAG_SYN, 0, 0xdead_beef)),
        Ok(Outcome::Pong { opaque: 0xdead_beef })
    );
    assert_eq!(y.on_header(&header(FrameType::Ping, FLAG_ACK, 0, 1)), Ok(Outcome::Ignored));
    assert!(!y.go_away_received());
    assert_eq!(y.on_header(&header(FrameType::GoAway, 0, 0, 0)), Ok(Outcome::GoAway));
    assert!(y.go_away_received());
}

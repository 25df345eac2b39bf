use established::ping::{echo_pings, PingOut, PingOutcome, PING_PAYLOAD_LEN};

fn payload(seed: u8) -> Vec<u8> {
    (0..PING_PAYLOAD_LEN as u8).map(|i| i.wrapping_mul(7).wrapping_add(seed)).collect()
}

#[test]
fn ping_not_due_before_first_ping() {
    let mut p = PingOut::new(60, 20, 20);
    assert_eq!(p.wake_up(), 60);
    assert_eq!(p.start_if_due(59, payload(1)), None);
    assert!(!p.is_in_flight());
}

#[test]
fn ping_success_schedules_next() {
    let mut p = PingOut::new(0, 20, 20);
    let sent = p.start_if_due(0, payload(1)).unwrap();
    assert_eq!(sent, payload(1));
    assert!(p.is_in_flight());
    assert_eq!(p.wake_up(), 20);
    assert_eq!(p.start_if_due(1, payload(2)), None);
    assert_eq!(p.on_echo(3, &sent[..10]), (10, None));
    let mut rest = sent[10..].to_vec();
    rest.extend_from_slice(b"extra");
    assert_eq!(p.on_echo(5, &rest), (22, Some(PingOutcome::Success)));
    assert!(!p.is_in_flight());
    assert_eq!(p.wake_up(), 25);
}

#[test]
fn ping_wrong_echo_fails() {
    let mut p = PingOut::new(0, 20, 20);
    assert!(p.start_if_due(0, payload(1)).is_some());
    assert_eq!(p.on_echo(2, &payload(2)), (32, Some(PingOutcome::Failed)));
    assert_eq!(p.wake_up(), 22);
}

#[test]
fn ping_timeout_fails_and_reschedules() {
    let mut p = PingOut::new(0, 20, 20);
    assert!(p.start_if_due(0, payload(1)).is_some());
    assert_eq!(p.on_time(20), None);
    assert_eq!(p.on_time(21), Some(PingOutcome::Failed));
    assert_eq!(p.wake_up(), 41);
    assert_eq!(p.on_time(100), None);
    assert_eq!(p.on_echo(100, &payload(1)), (0, None));
}

#[test]
fn ping_reset_fails() {
    let mut p = PingOut::new(0, 20, 20);
    assert_eq!(p.on_reset(0), None);
    assert!(p.start_if_due(0, payload(1)).is_some());
    assert_eq!(p.on_reset(4), Some(PingOutcome::Failed));
    assert_eq!(p.wake_up(), 24);
}

#[test]
fn echo_whole_payloads_only() {
    let bytes: Vec<u8> = (0..70u8).collect();
    assert_eq!(echo_pings(&bytes), bytes[..64].to_vec());
    assert_eq!(echo_pings(&bytes[..31]), Vec::<u8>::new());
    assert_eq!(echo_pings(&bytes[..32]), bytes[..32].to_vec());
}

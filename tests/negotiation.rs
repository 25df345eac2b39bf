use established::config::{Config, ConfigNotifications, ConfigRequestResponse, ConfigRequestResponseIn};
use established::connection::{Connection, InboundProtocol};
use established::framing::{encode_line, FrameError};
use established::negotiation::{
    proposer_step, read_answer, read_header, NegotiationError, ProposerPhase,
};
use std::time::Duration;

fn bob() -> Connection {
    Connection::new(
        Config {
            first_out_ping: Duration::new(60, 0),
            notifications_protocols: vec![ConfigNotifications {
                max_handshake_size: 1024,
                max_notification_size: 1024,
                name: "test-notif-protocol".to_owned(),
            }],
            request_protocols: vec![ConfigRequestResponse {
                inbound_allowed: true,
                inbound_config: ConfigRequestResponseIn::Payload { max_size: 128 },
                max_response_size: 1024,
                name: "test-request-protocol".to_owned(),
            }],
            max_inbound_substreams: 64,
            ping_interval: Duration::from_secs(20),
            ping_protocol: "ping".to_owned(),
            ping_timeout: Duration::from_secs(20),
            randomness_seed: [0; 32],
        },
        false,
    )
}

#[test]
fn header_is_read() {
    let mut bytes = encode_line(b"/multistream/1.0.0");
    let n = bytes.len();
    assert_eq!(read_header(&bytes[..5]), Ok(None));
    bytes.extend_from_slice(b"more");
    assert_eq!(read_header(&bytes), Ok(Some(n)));
}

#[test]
fn wrong_header_is_refused() {
    assert_eq!(read_header(&encode_line(b"/multistream/2.0.0")), Err(NegotiationError::BadHeader));
    assert_eq!(
        read_header(&[3, b'a', b'b', b'c']),
        Err(NegotiationError::InvalidLine(FrameError::MissingNewline))
    );
}

#[test]
fn known_protocol_is_echoed() {
    let c = bob();
    let line = encode_line(b"test-request-protocol");
    let answer = c.answer_proposal(&line).unwrap().unwrap();
    assert_eq!(answer.protocol, Some(InboundProtocol::Request(0)));
    assert_eq!(answer.consumed, line.len());
    assert_eq!(answer.reply, line);
    assert!(c.answer_proposal(&line[..4]).unwrap().is_none());
}

#[test]
fn unknown_protocol_gets_na() {
    let c = bob();
    let line = encode_line(b"other-protocol");
    let answer = c.answer_proposal(&line).unwrap().unwrap();
    assert_eq!(answer.protocol, None);
    assert_eq!(answer.reply, encode_line(b"na"));
}

#[test]
fn answers_are_read() {
    let name = b"test-request-protocol";
    let accepted = encode_line(name);
    assert_eq!(read_answer(&accepted, name), Ok(Some((true, accepted.len()))));
    let na = encode_line(b"na");
    assert_eq!(read_answer(&na, name), Ok(Some((false, 4))));
    assert_eq!(read_answer(&na[..2], name), Ok(None));
    assert_eq!(
        read_answer(&encode_line(b"something-else"), name),
        Err(NegotiationError::UnexpectedAnswer)
    );
}

fn listener_reply(name: &[u8]) -> Vec<u8> {
    let mut out = encode_line(b"/multistream/1.0.0");
    out.extend_from_slice(&encode_line(name));
    out
}

#[test]
fn proposer_accepted_in_one_go() {
    let name = b"test-request-protocol";
    let mut bytes = listener_reply(name);
    let n = bytes.len();
    bytes.extend_from_slice(b"payload");
    assert_eq!(proposer_step(ProposerPhase::Header, &bytes, name, false), (ProposerPhase::Accepted, n));
}

#[test]
fn proposer_refused_with_na() {
    let name = b"unknown-protocol";
    let bytes = listener_reply(b"na");
    assert_eq!(
        proposer_step(ProposerPhase::Header, &bytes, name, false),
        (ProposerPhase::Refused, bytes.len())
    );
}

#[test]
fn proposer_waits_then_answer() {
    let name = b"test-notif-protocol";
    let header = encode_line(b"/multistream/1.0.0");
    assert_eq!(
        proposer_step(ProposerPhase::Header, &header, name, false),
        (ProposerPhase::Answer, header.len())
    );
    assert_eq!(proposer_step(ProposerPhase::Header, &header[..3], name, false), (ProposerPhase::Header, 0));
    let answer = encode_line(name);
    assert_eq!(
        proposer_step(ProposerPhase::Answer, &answer, name, false),
        (ProposerPhase::Accepted, answer.len())
    );
    assert_eq!(proposer_step(ProposerPhase::Accepted, &answer, name, false), (ProposerPhase::Accepted, 0));
}

#[test]
fn proposer_fails_on_close_or_garbage() {
    let name = b"test-notif-protocol";
    assert_eq!(proposer_step(ProposerPhase::Header, &[], name, true), (ProposerPhase::Failed, 0));
    assert_eq!(proposer_step(ProposerPhase::Answer, &[], name, true), (ProposerPhase::Failed, 0));
    let bytes = listener_reply(b"something-else");
    let header_len = encode_line(b"/multistream/1.0.0").len();
    assert_eq!(
        proposer_step(ProposerPhase::Header, &bytes, name, false),
        (ProposerPhase::Failed, header_len)
    );
    assert_eq!(
        proposer_step(ProposerPhase::Header, &encode_line(b"/other/1.0.0"), name, false),
        (ProposerPhase::Failed, 0)
    );
}

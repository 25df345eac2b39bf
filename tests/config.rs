use established::config::ConfigRequestResponseIn;
use established::event::AddRequestError;

#[test]
fn max_size_of_empty_requests_is_zero() {
    assert_eq!(ConfigRequestResponseIn::Empty.max_size(), 0);
}

#[test]
fn max_size_of_payload_requests() {
    assert_eq!(ConfigRequestResponseIn::Payload { max_size: 128 }.max_size(), 128);
    assert_eq!(ConfigRequestResponseIn::Payload { max_size: 0 }.max_size(), 0);
}

#[test]
fn add_request_error_names() {
    assert_eq!(AddRequestError::RequestTooLarge.to_string(), "RequestTooLarge");
    assert_eq!(
        AddRequestError::NewOutboundSubstreamsForbidden.to_string(),
        "NewOutboundSubstreamsForbidden"
    );
}

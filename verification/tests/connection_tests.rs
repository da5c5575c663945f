use neuralbridge_mcp::protocol::codec::MessageType;
use neuralbridge_mcp::protocol::connection::{
    backoff_ms, connect_step, frame_action, is_transient_error, ConnectStep, FrameAction,
    INITIAL_BACKOFF_MS, MAX_BACKOFF_MS, MAX_RETRIES,
};

#[test]
fn test_exponential_backoff_timing() {
    let expected = [250, 500, 1000, 2000, 4000];
    for (attempt, &expected_ms) in expected.iter().enumerate() {
        let formula = std::cmp::min(INITIAL_BACKOFF_MS * 2_u64.pow(attempt as u32), MAX_BACKOFF_MS);
        assert_eq!(formula, expected_ms);
        assert_eq!(backoff_ms(attempt as u32), expected_ms);
    }
}

#[test]
fn test_exponential_backoff_cap() {
    let formula = std::cmp::min(INITIAL_BACKOFF_MS * 2_u64.pow(10), MAX_BACKOFF_MS);
    assert_eq!(formula, MAX_BACKOFF_MS);
    assert_eq!(backoff_ms(10), MAX_BACKOFF_MS);
    assert_eq!(backoff_ms(u32::MAX), MAX_BACKOFF_MS);
}

#[test]
fn test_transient_error_detection() {
    for error_msg in vec![
        "connection refused by peer",
        "Connection timeout after 5 seconds",
        "connection reset by peer",
        "ECONNREFUSED: Connection refused",
    ] {
        assert!(is_transient_error(error_msg), "{}", error_msg);
    }
}

#[test]
fn test_non_transient_error_detection() {
    for error_msg in vec!["permission denied", "host not found", "invalid address", "protocol error"] {
        assert!(!is_transient_error(error_msg), "{}", error_msg);
    }
}

#[test]
fn test_max_retries_constant() {
    assert_eq!(MAX_RETRIES, 5);
}

#[test]
fn test_retry_backoff_sequence() {
    for (attempt, expected_ms) in vec![(0, 250), (1, 500), (2, 1000), (3, 2000), (4, 4000), (5, 4000)] {
        let formula = std::cmp::min(INITIAL_BACKOFF_MS * 2_u64.pow(attempt), MAX_BACKOFF_MS);
        assert_eq!(formula, expected_ms);
        assert_eq!(backoff_ms(attempt), expected_ms);
    }
}

#[test]
fn connect_steps() {
    assert!(matches!(connect_step(0, true, false), ConnectStep::Connected));
    assert!(matches!(connect_step(0, false, false), ConnectStep::FailNonTransient));
    assert!(matches!(connect_step(MAX_RETRIES, false, true), ConnectStep::GiveUp));
    match connect_step(1, false, true) {
        ConnectStep::RetryAfter(ms) => assert_eq!(ms, 500),
        other => panic!("unexpected {:?}", other),
    }
}

#[test]
fn frames_are_routed_by_type() {
    assert!(matches!(frame_action(MessageType::Response), FrameAction::ReturnResponse));
    assert!(matches!(frame_action(MessageType::Event), FrameAction::ForwardEvent));
    assert!(matches!(frame_action(MessageType::Request), FrameAction::IgnoreRequest));
}

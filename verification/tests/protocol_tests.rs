use socket_access_verifier::listener::{classify_error, handle_messages, listener_reply, ErrorClass, ListenerError};
use socket_access_verifier::orchestrator::{bind_failure_result, verification_result};
use socket_access_verifier::outcome::{failure_to_error, FailureReason, VerificationError};
use socket_access_verifier::prober::{probe_step, run_probe, ProbeEvent, ProberState};

fn handshake_events(answer: &str) -> Vec<ProbeEvent> {
    vec![
        ProbeEvent::ConnectSucceeded,
        ProbeEvent::RequestSent,
        ProbeEvent::TextReceived(answer.to_string()),
    ]
}

#[test]
fn probe_ack_verifies() {
    let outcome = run_probe(&handshake_events("ok"));
    assert_eq!(outcome, ProberState::Verified);
}

#[test]
fn probe_mismatch_fails() {
    let outcome = run_probe(&handshake_events("nope"));
    assert_eq!(outcome, ProberState::Failed(FailureReason::ConnectionClosed));
}

#[test]
fn probe_request_token_is_no_ack() {
    let outcome = run_probe(&handshake_events("check"));
    assert_eq!(outcome, ProberState::Failed(FailureReason::ConnectionClosed));
}

#[test]
fn probe_timeout_fails() {
    let events = vec![
        ProbeEvent::ConnectSucceeded,
        ProbeEvent::RequestSent,
        ProbeEvent::TimeoutFired,
    ];
    assert_eq!(run_probe(&events), ProberState::Failed(FailureReason::Timeout));
}

#[test]
fn probe_connect_failure_fails_promptly() {
    let events = vec![ProbeEvent::ConnectFailed];
    assert_eq!(
        run_probe(&events),
        ProberState::Failed(FailureReason::ConnectionClosed)
    );
}

#[test]
fn probe_does_not_retry_after_mismatch() {
    let events = vec![
        ProbeEvent::ConnectSucceeded,
        ProbeEvent::RequestSent,
        ProbeEvent::TextReceived("nope".to_string()),
        ProbeEvent::TextReceived("ok".to_string()),
    ];
    assert_eq!(
        run_probe(&events),
        ProberState::Failed(FailureReason::ConnectionClosed)
    );
}

#[test]
fn probe_late_ack_cannot_undo_timeout() {
    let events = vec![
        ProbeEvent::ConnectSucceeded,
        ProbeEvent::RequestSent,
        ProbeEvent::TimeoutFired,
        ProbeEvent::TextReceived("ok".to_string()),
    ];
    assert_eq!(run_probe(&events), ProberState::Failed(FailureReason::Timeout));
}

#[test]
fn probe_without_answer_keeps_waiting() {
    let events = vec![ProbeEvent::ConnectSucceeded, ProbeEvent::RequestSent];
    assert_eq!(run_probe(&events), ProberState::AwaitingAck);
}

#[test]
fn probe_repeated_runs_agree() {
    let first = run_probe(&handshake_events("ok"));
    let second = run_probe(&handshake_events("ok"));
    assert_eq!(first, ProberState::Verified);
    assert_eq!(second, ProberState::Verified);
    assert_eq!(first, second);
}

#[test]
fn probe_single_steps() {
    let s = probe_step(ProberState::Connecting, &ProbeEvent::ConnectSucceeded);
    assert_eq!(s, ProberState::Connected);
    let s = probe_step(s, &ProbeEvent::RequestSent);
    assert_eq!(s, ProberState::AwaitingAck);
    let t = probe_step(s, &ProbeEvent::NonTextReceived);
    assert_eq!(t, ProberState::Failed(FailureReason::ConnectionClosed));
    let t = probe_step(s, &ProbeEvent::StreamEnded);
    assert_eq!(t, ProberState::Failed(FailureReason::ConnectionClosed));
}

#[test]
fn listener_answers_request_with_ack() {
    let reply = listener_reply("check");
    assert_eq!(reply, Some("ok".to_string()));
}

#[test]
fn listener_ignores_other_content() {
    assert_eq!(listener_reply("ok"), None);
    assert_eq!(listener_reply(""), None);
    assert_eq!(listener_reply("CHECK"), None);
    assert_eq!(listener_reply("check "), None);
}

#[test]
fn handler_answers_first_request_only() {
    let msgs = vec![
        "hello".to_string(),
        "check".to_string(),
        "check".to_string(),
    ];
    let (replies, read) = handle_messages(&msgs);
    assert_eq!(replies, vec!["ok".to_string()]);
    assert_eq!(read, 2);
}

#[test]
fn handler_silent_without_request() {
    let msgs = vec!["hello".to_string(), "ok".to_string()];
    let (replies, read) = handle_messages(&msgs);
    assert!(replies.is_empty());
    assert_eq!(read, 2);
}

#[test]
fn benign_errors_are_swallowed() {
    assert_eq!(classify_error(ListenerError::ConnectionClosed), ErrorClass::Benign);
    assert_eq!(classify_error(ListenerError::Protocol), ErrorClass::Benign);
    assert_eq!(classify_error(ListenerError::InvalidText), ErrorClass::Benign);
    assert_eq!(classify_error(ListenerError::Other), ErrorClass::Unexpected);
}

#[test]
fn outcome_maps_to_result() {
    assert_eq!(verification_result(ProberState::Verified), Ok(()));
    assert_eq!(
        verification_result(ProberState::Failed(FailureReason::Timeout)),
        Err(VerificationError::Timeout)
    );
    assert_eq!(
        verification_result(ProberState::Failed(FailureReason::ConnectionClosed)),
        Err(VerificationError::ConnectionClosed)
    );
    assert_eq!(
        verification_result(ProberState::Failed(FailureReason::ProtocolError)),
        Err(VerificationError::ProtocolError)
    );
    assert_eq!(bind_failure_result(), Err(VerificationError::BindFailed));
}

#[test]
fn failure_reasons_map_to_errors() {
    assert_eq!(failure_to_error(FailureReason::Timeout), VerificationError::Timeout);
    assert_eq!(
        failure_to_error(FailureReason::ConnectionClosed),
        VerificationError::ConnectionClosed
    );
    assert_eq!(
        failure_to_error(FailureReason::ProtocolError),
        VerificationError::ProtocolError
    );
}

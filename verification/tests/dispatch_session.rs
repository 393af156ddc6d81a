//! One dispatch: preview stepping, cancellation, wire parsing and URLs.

use kobold_dispatch::error::TransportError;
use kobold_dispatch::session::PreviewStep;
use kobold_dispatch::session::PreviewState;
use kobold_dispatch::session::SessionState;
use kobold_dispatch::session::abort_url;
use kobold_dispatch::session::check_url;
use kobold_dispatch::session::generate_url;
use kobold_dispatch::session::instance_authority;
use kobold_dispatch::session::parse_generation_response;
use kobold_dispatch::session::version_url;

fn emitted(step: PreviewStep) -> Vec<u8> {
    match step {
        PreviewStep::Emit(chunk) => chunk,
        PreviewStep::Stop => panic!("preview stopped where it should emit"),
    }
}

#[test]
fn preview_emits_growth_then_stops_on_shrink() {
    // Poll lengths 5, 10, 10, 3: two growth increments, one empty
    // increment, then a silent stop on the shrink.
    let mut preview = PreviewState::new();
    assert_eq!(emitted(preview.step(b"hello")), b"hello".to_vec());
    assert_eq!(emitted(preview.step(b"hello worl")), b" worl".to_vec());
    assert_eq!(emitted(preview.step(b"hello worl")), b"".to_vec());
    assert!(matches!(preview.step(b"hel"), PreviewStep::Stop));
    // The stop changed nothing: a longer poll picks up where it left off.
    assert_eq!(emitted(preview.step(b"hello world")), b"d".to_vec());
}

#[test]
fn cancel_before_resolution_issues_one_abort() {
    let mut session = SessionState::new();
    assert!(!session.abort_issued);
    assert!(!session.cancel_requested);
    let issue = session.request_cancel();
    assert!(issue);
    assert!(session.abort_issued);
    assert!(session.cancel_requested);
    assert!(session.preview_should_stop());
    // Cancelling again does not issue a second abort.
    let again = session.request_cancel();
    assert!(!again);
}

#[test]
fn cancel_after_resolution_is_benign_and_single() {
    let mut session = SessionState::new();
    session.resolve();
    assert!(session.resolved);
    assert!(session.preview_should_stop());
    // No abort was sent merely by resolving or constructing.
    assert!(!session.abort_issued);
    let issue = session.request_cancel();
    assert!(issue);
    assert!(!session.request_cancel());
}

#[test]
fn resolution_stops_the_preview() {
    let mut session = SessionState::new();
    assert!(!session.preview_should_stop());
    session.resolve();
    assert!(session.preview_should_stop());
}

#[test]
fn generation_response_text_is_extracted() {
    let body = br#"{"results": [{"text": "once upon a time"}]}"#;
    assert_eq!(parse_generation_response(body), Ok(b"once upon a time".to_vec()));
}

#[test]
fn malformed_bodies_are_protocol_errors() {
    assert_eq!(parse_generation_response(b"{}"), Err(TransportError::InvalidResponse));
    assert_eq!(parse_generation_response(b"not json"), Err(TransportError::InvalidResponse));
    assert_eq!(
        parse_generation_response(br#"{"results": [{"text": 5}]}"#),
        Err(TransportError::InvalidResponse)
    );
}

#[test]
fn endpoint_urls() {
    let authority = instance_authority(5001);
    assert_eq!(authority, b"127.0.0.1:5001".to_vec());
    assert_eq!(version_url(&authority), b"http://127.0.0.1:5001/api/v1/info/version".to_vec());
    assert_eq!(generate_url(&authority), b"http://127.0.0.1:5001/api/v1/generate".to_vec());
    assert_eq!(check_url(&authority), b"http://127.0.0.1:5001/api/extra/generate/check".to_vec());
    assert_eq!(abort_url(&authority), b"http://127.0.0.1:5001/api/extra/abort".to_vec());
}

use token_splice::callback::{
    extract_manual_code, handle_callback, oauth_fail_html, oauth_success_html, response_for,
};
use token_splice::error::FlowError;
use token_splice::loopback::{decimal_text, redirect_uri_for};
use token_splice::session::{
    cancel_oauth_flow, submit_oauth_code, CaptureSession, Phase, PrepareStep, WaitEvent,
};

fn prepared_session() -> (CaptureSession, u64) {
    let mut s = CaptureSession::new();
    assert!(matches!(s.prepare_step(), PrepareStep::Bind));
    let a = s.begin(
        "https://auth.example/authorize?state=S".to_string(),
        "http://localhost:4321/oauth-callback".to_string(),
        "S".to_string(),
    );
    (s, a)
}

#[test]
fn prepare_twice_hands_out_the_same_url() {
    let (mut s, _) = prepared_session();
    let first = match s.prepare_step() {
        PrepareStep::Reuse(u) => u,
        _ => panic!("expected the url again"),
    };
    let second = match s.prepare_step() {
        PrepareStep::Reuse(u) => u,
        _ => panic!("expected the url again"),
    };
    assert_eq!(first, second);
    assert_eq!(first, "https://auth.example/authorize?state=S");
    assert_eq!(s.phase(), Phase::Prepared);
}

#[test]
fn callback_scenario_completes_the_wait() {
    let (mut s, a) = prepared_session();
    let waiter = s.take_receiver().unwrap();
    assert_eq!(waiter, a);
    let expected = s.expected_state(a);
    let request = b"GET /cb?code=abc123&state=S HTTP/1.1\r\nHost: localhost\r\n\r\n";
    let result = handle_callback(request, expected.as_deref());
    assert_eq!(result, Ok("abc123".to_string()));
    let page = response_for(&result);
    assert!(page.starts_with("HTTP/1.1 200 OK"));
    assert!(page.contains("Authorization Successful"));
    assert!(s.deliver(a, result));
    assert_eq!(s.resolve(a, WaitEvent::Woken), Some(Ok("abc123".to_string())));
    assert_eq!(s.phase(), Phase::Idle);
}

#[test]
fn callback_with_wrong_state_is_a_mismatch() {
    let r = handle_callback(b"GET /cb?code=abc&state=T HTTP/1.1\r\n", Some("S"));
    assert_eq!(r, Err(FlowError::StateMismatch));
    assert!(response_for(&r).starts_with("HTTP/1.1 400 Bad Request"));
    let none = handle_callback(b"GET /cb?code=abc HTTP/1.1\r\n", Some("S"));
    assert_eq!(none, Err(FlowError::StateMismatch));
    let idle = handle_callback(b"GET /cb?code=abc&state=S HTTP/1.1\r\n", None);
    assert_eq!(idle, Err(FlowError::StateMismatch));
}

#[test]
fn callback_without_code_fails() {
    assert_eq!(handle_callback(b"GET /cb?state=S HTTP/1.1\r\n", Some("S")), Err(FlowError::MissingCode));
    assert_eq!(handle_callback(b"", Some("S")), Err(FlowError::MissingCode));
    assert_eq!(handle_callback(b"GET\r\n/cb?code=x&state=S", Some("S")), Err(FlowError::MissingCode));
}

#[test]
fn callback_takes_the_last_code_and_decodes_it() {
    let r = handle_callback(b"GET /cb?code=a&code=b%2Fc&state=S HTTP/1.1\r\n", Some("S"));
    assert_eq!(r, Ok("b/c".to_string()));
}

#[test]
fn second_delivery_is_dropped_quietly() {
    let (mut s, a) = prepared_session();
    s.take_receiver().unwrap();
    assert!(s.deliver(a, Ok("first".to_string())));
    assert!(!s.deliver(a, Ok("second".to_string())));
    assert_eq!(submit_oauth_code(&mut s, "third", None), Ok(false));
    assert_eq!(s.resolve(a, WaitEvent::TimedOut), Some(Ok("first".to_string())));
    assert_eq!(submit_oauth_code(&mut s, "late", None), Ok(false));
    assert!(!s.deliver(a, Ok("late".to_string())));
}

#[test]
fn timeout_then_a_fresh_attempt() {
    let (mut s, a) = prepared_session();
    s.take_receiver().unwrap();
    assert_eq!(s.resolve(a, WaitEvent::Woken), None);
    assert_eq!(s.resolve(a, WaitEvent::TimedOut), Some(Err(FlowError::FlowTimedOut)));
    assert_eq!(s.phase(), Phase::Idle);
    assert!(matches!(s.prepare_step(), PrepareStep::Bind));
    let b = s.begin("u2".to_string(), "r2".to_string(), "S2".to_string());
    assert_ne!(a, b);
    assert_eq!(s.phase(), Phase::Prepared);
}

#[test]
fn wrong_state_then_right_state() {
    let (mut s, a) = prepared_session();
    s.take_receiver().unwrap();
    assert_eq!(submit_oauth_code(&mut s, "c0de", Some("nope")), Err(FlowError::StateMismatch));
    assert_eq!(s.resolve(a, WaitEvent::Woken), None);
    assert_eq!(submit_oauth_code(&mut s, "c0de", Some("S")), Ok(true));
    assert_eq!(s.resolve(a, WaitEvent::Woken), Some(Ok("c0de".to_string())));
}

#[test]
fn second_waiter_is_refused() {
    let (mut s, _) = prepared_session();
    assert!(s.take_receiver().is_ok());
    assert_eq!(s.take_receiver(), Err(FlowError::FlowAlreadyInProgress));
    let mut idle = CaptureSession::new();
    assert_eq!(idle.take_receiver(), Err(FlowError::NoActiveFlow));
}

#[test]
fn cancel_ends_the_wait_and_is_idempotent() {
    let (mut s, a) = prepared_session();
    s.take_receiver().unwrap();
    assert!(cancel_oauth_flow(&mut s));
    assert!(!cancel_oauth_flow(&mut s));
    assert_eq!(s.resolve(a, WaitEvent::Cancelled), Some(Err(FlowError::FlowCancelled)));
    assert_eq!(s.phase(), Phase::Idle);
}

#[test]
fn new_prepare_supersedes_a_claimed_attempt() {
    let (mut s, a) = prepared_session();
    s.take_receiver().unwrap();
    assert!(matches!(s.prepare_step(), PrepareStep::CancelThenBind));
    let b = s.begin("u".to_string(), "r".to_string(), "S3".to_string());
    assert_eq!(s.resolve(a, WaitEvent::Woken), Some(Err(FlowError::FlowCancelled)));
    assert!(!s.deliver(a, Ok("old".to_string())));
    assert!(s.deliver(b, Ok("new".to_string())));
}

#[test]
fn closed_channel_ends_the_wait() {
    let (mut s, a) = prepared_session();
    s.take_receiver().unwrap();
    assert_eq!(s.resolve(a, WaitEvent::Closed), Some(Err(FlowError::ChannelClosed)));
}

#[test]
fn manual_code_from_url_or_text() {
    assert_eq!(extract_manual_code("http://localhost:1/cb?state=S&code=4%2F0abc"), "4/0abc");
    assert_eq!(extract_manual_code("plain-code"), "plain-code");
    assert_eq!(extract_manual_code("http://localhost/cb?x=1"), "http://localhost/cb?x=1");
    assert_eq!(extract_manual_code("http not a url"), "http not a url");
}

#[test]
fn redirect_uris_by_bound_stacks() {
    assert_eq!(redirect_uri_for(4321, true, true), "http://localhost:4321/oauth-callback");
    assert_eq!(redirect_uri_for(80, true, false), "http://127.0.0.1:80/oauth-callback");
    assert_eq!(redirect_uri_for(65535, false, true), "http://[::1]:65535/oauth-callback");
    assert_eq!(decimal_text(0), "0");
    assert_eq!(decimal_text(10), "10");
}

#[test]
fn response_pages_differ() {
    assert!(oauth_success_html().contains("200 OK"));
    assert!(oauth_fail_html().contains("400 Bad Request"));
    assert_eq!(
        response_for(&Err(FlowError::MissingCode)),
        oauth_fail_html()
    );
}

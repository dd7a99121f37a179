use ios_remote::features::wda_client::{WdaClient, WdaError, WdaGesture, WdaStep};

#[test]
fn new_stores_base_url() {
    let c = WdaClient::new("http://example:9000".to_string());
    assert_eq!(c.base_url(), "http://example:9000");
    assert!(c.session_id().is_none());
}

#[test]
fn tap_request_has_point_coordinates() {
    let c = WdaClient::new("http://127.0.0.1:8100".to_string());
    let r = c.tap("abc", 100, 200);
    assert_eq!(r.path, "/session/abc/wda/tap/0");
    assert_eq!(r.body, r#"{"x":100,"y":200}"#);
    assert_eq!(c.url(&r.path), "http://127.0.0.1:8100/session/abc/wda/tap/0");
}

#[test]
fn drag_and_hold_durations_are_seconds() {
    let c = WdaClient::new("http://h".to_string());
    let r = c.swipe("s", 0, 0, 100, 200, 500);
    assert_eq!(r.path, "/session/s/wda/dragfromtoforduration");
    assert_eq!(r.body, r#"{"fromX":0,"fromY":0,"toX":100,"toY":200,"duration":0.5}"#);
    let r = c.long_press("s", 50, 80, 1000);
    assert_eq!(r.path, "/session/s/wda/touchAndHold");
    assert_eq!(r.body, r#"{"x":50,"y":80,"duration":1}"#);
    for ms in [0u64, 1, 20, 200, 1234, 2050, 999_999] {
        let r = c.long_press("s", 0, 0, ms);
        let want = format!(r#"{{"x":0,"y":0,"duration":{}}}"#, ms as f64 / 1000.0);
        assert_eq!(r.body, want, "ms={ms}");
    }
}

#[test]
fn session_id_comes_from_top_level_or_value() {
    let mut c = WdaClient::new("http://h".to_string());
    assert_eq!(c.accept_session(None, Some("inner".to_string()), "{}").unwrap(), "inner");
    assert_eq!(c.session_id(), Some("inner"));
    assert_eq!(c.accept_session(Some("top".to_string()), Some("inner".to_string()), "{}").unwrap(), "top");
    match c.accept_session(None, None, "{\"value\":{}}") {
        Err(WdaError::BadResponse(b)) => assert_eq!(b, "{\"value\":{}}"),
        _ => panic!("missing session id must fail"),
    }
    assert_eq!(c.session_id(), Some("top"));
}

#[test]
fn not_found_drops_the_session() {
    let mut c = WdaClient::new("http://h".to_string());
    c.accept_session(Some("abc".to_string()), None, "").unwrap();
    assert_eq!(c.accept_reply("/x", 200, "ok".to_string(), "ok").unwrap(), "ok");
    assert_eq!(c.session_id(), Some("abc"));
    match c.accept_reply("/session/abc/wda/tap/0", 500, "boom ".to_string(), "boom") {
        Err(WdaError::BadResponse(m)) => assert_eq!(m, "HTTP 500 from http://h/session/abc/wda/tap/0: boom"),
        _ => panic!("500 must fail"),
    }
    assert_eq!(c.session_id(), Some("abc"));
    assert!(c.accept_reply("/x", 404, String::new(), "").is_err());
    assert!(c.session_id().is_none());
    assert_eq!(
        WdaError::Unreachable("http://h/x".to_string()).message(),
        "WDA not reachable at http://h/x \u{2014} is WebDriverAgent running and iproxy forwarded?"
    );
}

#[test]
fn first_gesture_creates_a_session() {
    let mut c = WdaClient::new("http://example:9000".to_string());
    match c.next_step(&WdaGesture::Tap { x: 10, y: 20 }) {
        WdaStep::CreateSession(q) => {
            assert_eq!(c.url(&q.path), "http://example:9000/session");
            assert_eq!(q.body, r#"{"capabilities":{"alwaysMatch":{}}}"#);
        }
        WdaStep::Send(_) => panic!("a new client must create a session first"),
    }
    c.accept_session(Some("abc".to_string()), None, "{}").unwrap();
    match c.next_step(&WdaGesture::LongPress { x: 1, y: 2, duration_ms: 1500 }) {
        WdaStep::Send(q) => {
            assert_eq!(q.path, "/session/abc/wda/touchAndHold");
            assert_eq!(q.body, r#"{"x":1,"y":2,"duration":1.5}"#);
        }
        WdaStep::CreateSession(_) => panic!("the session is held"),
    }
    let _ = c.accept_reply("/session/abc/wda/tap/0", 404, String::new(), "");
    assert!(matches!(c.next_step(&WdaGesture::Tap { x: 0, y: 0 }), WdaStep::CreateSession(_)));
}

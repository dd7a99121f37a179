use ios_remote::synthetic::state::{DeviceState, Screen};
use ios_remote::ui::api::{
    authorized, command_error, command_status, constant_time_eq, is_quit_command, synthetic_state_view, CommandOutcome,
};

#[test]
fn constant_time_eq_compares_bytes() {
    assert!(constant_time_eq(b"abc", b"abc"));
    assert!(!constant_time_eq(b"abc", b"abd"));
    assert!(!constant_time_eq(b"abc", b"ab"));
    assert!(constant_time_eq(b"", b""));
}

#[test]
fn empty_token_allows_everything() {
    assert!(authorized("", None, None));
}

#[test]
fn bearer_header_or_query_token_is_required() {
    assert!(authorized("s3cret", Some("Bearer s3cret"), None));
    assert!(!authorized("s3cret", Some("Bearer s3cre"), None));
    assert!(!authorized("s3cret", Some("bearer s3cret"), None));
    assert!(!authorized("s3cret", Some("s3cret"), None));
    assert!(authorized("s3cret", None, Some("a=1&token=s3cret&b=2")));
    assert!(!authorized("s3cret", None, Some("token=nope&token=s3cret")));
    assert!(!authorized("s3cret", None, Some("xtoken=s3cret")));
    assert!(!authorized("s3cret", None, None));
    assert!(authorized("s3cret", Some("Bearer wrong"), Some("token=s3cret")));
}

#[test]
fn command_outcomes_map_to_statuses() {
    let done = CommandOutcome::Done { action: "screenshot".to_string(), message: "ok".to_string() };
    assert_eq!(command_status(&done), 200);
    assert_eq!(command_error(&done), None);
    let unknown = CommandOutcome::UnknownAction("not_a_real_action".to_string());
    assert_eq!(command_status(&unknown), 404);
    assert_eq!(command_error(&unknown), Some("unknown_action"));
    let nd = CommandOutcome::NotDispatchable { action: "ruler".to_string(), reason: "ui".to_string() };
    assert_eq!(command_status(&nd), 409);
    assert_eq!(command_error(&nd), Some("not_dispatchable"));
    assert_eq!(command_status(&CommandOutcome::NoFrame), 503);
    assert_eq!(command_error(&CommandOutcome::NoFrame), Some("no_frame"));
    let failed = CommandOutcome::Failed { action: "record_stop".to_string(), message: "idle".to_string() };
    assert_eq!(command_status(&failed), 500);
    assert_eq!(command_error(&failed), Some("handler_failed"));
    assert!(is_quit_command("quit"));
    assert!(!is_quit_command("quit2"));
}

#[test]
fn synthetic_state_view_reports_screen_and_app() {
    let mut st = DeviceState::new(390, 844);
    let v = synthetic_state_view(&st.snapshot());
    assert_eq!(v.screen, "home");
    assert!(v.app.is_none());
    st.screen = Screen::App { index: 27 };
    let v = synthetic_state_view(&st.snapshot());
    assert_eq!(v.screen, "app");
    assert_eq!(v.app, Some((27, 'B')));
}

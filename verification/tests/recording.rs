use ios_remote::features::recording::{RecordingController, RecordingError};

#[test]
fn stop_when_idle_returns_none() {
    let mut ctl = RecordingController::new();
    assert!(ctl.stop().is_none());
    assert!(ctl.add_bookmark("x").is_err());
}

#[test]
fn double_start_is_refused() {
    let mut ctl = RecordingController::new().with_encoder_probe(true).with_output_dir("out".to_string());
    assert_eq!(ctl.output_dir(), "out");
    let dir = ctl.start(false, Ok("out/session_1".to_string())).unwrap();
    assert_eq!(dir, "out/session_1");
    assert!(ctl.is_active());
    match ctl.start(true, Ok("out/session_2".to_string())) {
        Err(RecordingError::AlreadyRecording) => {}
        _ => panic!("second start must be refused"),
    }
    assert_eq!(ctl.current_path(), Some("out/session_1".to_string()));
    assert_eq!(ctl.stop().map(|f| f.dir), Some("out/session_1".to_string()));
    assert!(!ctl.is_active());
}

#[test]
fn start_without_encoder_is_refused() {
    let mut ctl = RecordingController::new().with_encoder_probe(false);
    let err = ctl.start(true, Ok("x".to_string())).err().unwrap();
    assert!(matches!(err, RecordingError::EncoderUnavailable));
    assert_eq!(err.status_code(), 503);
    assert!(!ctl.is_active());
}

#[test]
fn directory_failure_is_reported() {
    let mut ctl = RecordingController::new();
    let err = ctl.start(true, Err("create failed".to_string())).err().unwrap();
    assert_eq!(err.message(), "create failed");
    assert_eq!(err.status_code(), 500);
    assert_eq!(RecordingError::AlreadyRecording.status_code(), 409);
    assert_eq!(RecordingError::AlreadyRecording.message(), "recording already in progress");
}

#[test]
fn bookmarks_point_at_the_next_nal_unit() {
    let mut ctl = RecordingController::new();
    ctl.start(true, Ok("s".to_string())).unwrap();
    ctl.note_nal_unit();
    ctl.note_nal_unit();
    let b = ctl.add_bookmark("login screen").unwrap();
    assert_eq!(b.label, "login screen");
    assert_eq!(b.frame_index, 2);
}

#[test]
fn max_duration_zero_means_unlimited() {
    let mut ctl = RecordingController::new().with_max_duration_secs(0);
    ctl.start(true, Ok("s".to_string())).unwrap();
    assert!(!ctl.reached_max_duration());
}

#[test]
fn duration_limit_counts_whole_seconds() {
    let idle = RecordingController::new().with_max_duration_secs(2);
    assert!(!idle.reached_max_duration_after(5_000_000));
    let mut ctl = RecordingController::new().with_max_duration_secs(2);
    ctl.start(true, Ok("s".to_string())).unwrap();
    assert!(!ctl.reached_max_duration_after(1_999_999));
    assert!(ctl.reached_max_duration_after(2_000_000));
    assert!(!ctl.reached_max_duration());
    let mut unlimited = RecordingController::new();
    unlimited.start(true, Ok("s".to_string())).unwrap();
    assert!(!unlimited.reached_max_duration_after(u64::MAX));
}

#[test]
fn stop_hands_back_the_bookmarks() {
    let mut ctl = RecordingController::new();
    ctl.start(true, Ok("p".to_string())).unwrap();
    ctl.note_nal_unit();
    let b = ctl.add_bookmark("login screen").unwrap();
    ctl.note_nal_unit();
    let done = ctl.stop().unwrap();
    assert_eq!(done.dir, "p");
    assert_eq!(done.nal_count, 2);
    assert_eq!(done.bookmarks.len(), 1);
    assert_eq!(done.bookmarks[0].label, "login screen");
    assert_eq!(done.bookmarks[0].frame_index, b.frame_index);
    assert_eq!(done.bookmarks[0].timestamp_us, b.timestamp_us);
    assert!(done.elapsed_us >= b.timestamp_us);
    assert!(!ctl.is_active());
}

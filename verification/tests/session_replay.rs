use ios_remote::features::frame::Frame;
use ios_remote::features::nal::index_nal_units;
use ios_remote::features::session_replay::{
    playback_frame_bytes, PlayStep, SessionPlaybackController, SessionPlayer, SessionRecorder,
};

#[test]
fn indexes_annex_b_nal_units() {
    let stream = vec![0x00, 0x00, 0x00, 0x01, 0xAA, 0xBB, 0x00, 0x00, 0x01, 0xCC];
    let ranges = index_nal_units(&stream);
    assert_eq!(ranges.len(), 2);
    assert_eq!(&stream[ranges[0].0..ranges[0].1], &[0xAA, 0xBB]);
    assert_eq!(&stream[ranges[1].0..ranges[1].1], &[0xCC]);
}

fn frame_with(nal: Vec<u8>, ts: u64) -> Frame {
    Frame { width: 64, height: 48, rgba: Vec::new(), timestamp_us: ts, h264_nalu: Some(nal) }
}

#[test]
fn recorded_stream_indexes_back_to_the_same_units() {
    let mut rec = SessionRecorder::new();
    rec.start();
    rec.push_frame(&frame_with(vec![0x65, 1], 1));
    rec.push_frame(&frame_with(vec![0x41, 2, 3], 2));
    rec.push_frame(&Frame { width: 64, height: 48, rgba: vec![0; 4], timestamp_us: 3, h264_nalu: None });
    rec.stop();
    let stream = rec.annex_b_stream();
    assert_eq!(stream, vec![0, 0, 0, 1, 0x65, 1, 0, 0, 0, 1, 0x41, 2, 3]);
    let ranges = index_nal_units(&stream);
    assert_eq!(ranges.len(), 2);
    assert_eq!(&stream[ranges[0].0..ranges[0].1], &[0x65, 1]);
    assert_eq!(&stream[ranges[1].0..ranges[1].1], &[0x41, 2, 3]);
}

#[test]
fn recorder_ignores_frames_while_stopped() {
    let mut rec = SessionRecorder::new();
    rec.push_frame(&frame_with(vec![9], 1));
    assert!(rec.annex_b_stream().is_empty());
    rec.start();
    rec.add_bookmark("login screen");
    assert_eq!(rec.bookmarks().len(), 1);
    assert_eq!(rec.bookmarks()[0].label, "login screen");
    assert_eq!(rec.bookmarks()[0].frame_index, 0);
}

fn three_unit_player() -> SessionPlayer {
    let video = vec![0x00, 0x00, 0x00, 0x01, 0x10, 0x00, 0x00, 0x00, 0x01, 0x20, 0x21, 0x00, 0x00, 0x00, 0x01, 0x30];
    SessionPlayer::from_parts(video, Vec::new())
}

#[test]
fn player_indexes_nal_units() {
    let player = three_unit_player();
    assert_eq!(player.nal_count(), 3);
    assert_eq!(player.nalu(0), Some(&[0x10][..]));
    assert_eq!(player.nalu(1), Some(&[0x20, 0x21][..]));
    assert_eq!(player.nalu(2), Some(&[0x30][..]));
    assert_eq!(player.nalu(3), None);
}

#[test]
fn pause_when_idle_is_noop() {
    let mut ctl = SessionPlaybackController::new();
    assert!(!ctl.is_active());
    ctl.pause();
    assert!(!ctl.is_active());
}

#[test]
fn play_without_loaded_session_errors() {
    let ctl = SessionPlaybackController::new();
    let err = ctl.play_step().expect_err("play without load must error");
    assert!(err.contains("no session loaded"), "unexpected: {err}");
}

#[test]
fn playback_walks_the_units_then_stops() {
    let mut ctl = SessionPlaybackController::new().with_ffmpeg_bin("ffmpeg-test".to_string());
    assert_eq!(ctl.ffmpeg_bin(), "ffmpeg-test");
    ctl.load(three_unit_player());
    assert_eq!(ctl.play_step(), Ok(PlayStep::Start));
    assert_eq!(ctl.advance(), None);
    ctl.set_playing();
    assert_eq!(ctl.play_step(), Ok(PlayStep::AlreadyPlaying));
    assert_eq!(ctl.seek(1), Err("pause before seeking".to_string()));
    assert_eq!(ctl.advance(), Some(0));
    assert_eq!(ctl.advance(), Some(1));
    assert_eq!(ctl.advance(), Some(2));
    assert_eq!(ctl.advance(), None);
    ctl.pause();
    assert_eq!(ctl.seek(1), Ok(1));
    assert_eq!(ctl.current_position(), 1);
    assert_eq!(ctl.seek(99), Ok(2));
    assert_eq!(ctl.current_position(), 2);
}

#[test]
fn seek_without_session_errors() {
    let mut ctl = SessionPlaybackController::new();
    assert_eq!(ctl.seek(0), Err("no session loaded".to_string()));
}

#[test]
fn frame_bytes_checks_the_size() {
    assert_eq!(playback_frame_bytes(100, 200), Ok(80_000));
    assert_eq!(playback_frame_bytes(0, 200), Err("session header has zero dimensions".to_string()));
    assert_eq!(playback_frame_bytes(10, 0), Err("session header has zero dimensions".to_string()));
}

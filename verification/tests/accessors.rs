use ios_remote::features::frame::Frame;
use ios_remote::features::recording::RecordingController;
use ios_remote::features::session_replay::{Bookmark, SessionPlaybackController, SessionPlayer, SessionRecorder};
use ios_remote::features::stats_overlay::draw_stats_bar;
use ios_remote::features::stream_deck::{StreamDeckButton, StreamDeckIntegration};

#[test]
fn recording_progress_is_reported_while_active() {
    let mut c = RecordingController::new().with_encoder_probe(true);
    assert_eq!(c.recorded_nal_units(), None);
    assert!(c.recording_bookmarks().is_empty());
    assert!(c.elapsed_us().is_none());
    c.start(false, Ok("rec/s1".to_string())).unwrap();
    c.note_nal_unit();
    c.note_nal_unit();
    c.add_bookmark("here").unwrap();
    assert_eq!(c.recorded_nal_units(), Some(2));
    assert_eq!(c.recording_bookmarks().len(), 1);
    assert_eq!(c.recording_bookmarks()[0].frame_index, 2);
    assert!(c.elapsed_us().is_some());
    c.stop();
    assert_eq!(c.recorded_nal_units(), None);
}

#[test]
fn session_recorder_reports_count_and_size() {
    let mut r = SessionRecorder::new();
    r.start();
    r.push_frame(&Frame { width: 64, height: 48, rgba: Vec::new(), timestamp_us: 1, h264_nalu: Some(vec![0x65, 1]) });
    r.push_frame(&Frame { width: 64, height: 48, rgba: Vec::new(), timestamp_us: 2, h264_nalu: None });
    assert_eq!(r.frame_count(), 1);
    assert_eq!(r.frame_size(), (64, 48));
}

#[test]
fn loaded_player_is_exposed_to_the_decoder() {
    let mut c = SessionPlaybackController::new();
    assert!(c.loaded_player().is_none());
    let video = vec![0, 0, 0, 1, 0x67, 0, 0, 0, 1, 0x68, 0, 0, 0, 1, 0x65];
    let bm = Bookmark { timestamp_us: 5, label: "x".to_string(), frame_index: 1 };
    c.load(SessionPlayer::from_parts(video, vec![bm]));
    let p = c.loaded_player().unwrap();
    assert_eq!(p.nal_count(), 3);
    assert_eq!(p.nalu(2), Some(&[0x65u8][..]));
    assert_eq!(p.bookmarks().len(), 1);
}

#[test]
fn stream_deck_layout_can_be_replaced() {
    let mut deck = StreamDeckIntegration::new();
    assert_eq!(deck.buttons().len(), 8);
    deck.set_buttons(vec![StreamDeckButton {
        position: 3,
        action: "screenshot".to_string(),
        label: "Shot".to_string(),
        icon: None,
    }]);
    assert_eq!(deck.buttons().len(), 1);
    assert_eq!(deck.on_press(3), Some("screenshot"));
    assert_eq!(deck.on_press(0), None);
    assert!(!deck.is_connected());
}

#[test]
fn stats_bar_dims_the_top_rows_and_draws_what_fits() {
    let (w, h) = (20u32, 30u32);
    let mut buf = vec![200u8; (w * h * 4) as usize];
    let text: Vec<char> = "888".chars().collect();
    draw_stats_bar(&mut buf, w, h, &text);
    // Row 0 is dimmed (colour bytes only), row 24 is not.
    assert_eq!(&buf[0..4], &[80, 80, 80, 200]);
    let r24 = (24 * w * 4) as usize;
    assert_eq!(&buf[r24..r24 + 4], &[200, 200, 200, 200]);
    // Two characters fit a 20-pixel bar: the second starts at x = 14.
    let lit = |x: u32, y: u32| buf[((y * w + x) * 4) as usize + 1] == 0xD4;
    assert!((8..13).any(|x| (8..15).any(|y| lit(x, y))));
    assert!((14..19).any(|x| (8..15).any(|y| lit(x, y))));
}

#[test]
fn stats_bar_on_a_short_frame_dims_everything() {
    let mut buf = vec![100u8; 4 * 4 * 4];
    draw_stats_bar(&mut buf, 4, 4, &['x']);
    assert!(buf.chunks(4).all(|p| p == [40, 40, 40, 100]));
}

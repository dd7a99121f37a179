use ios_remote::ui::stats::StatsHub;

fn fps(rate: Option<ios_remote::ui::stats::WindowRate>) -> f64 {
    match rate {
        Some(r) => r.frames as f64 / (r.elapsed_us as f64 / 1_000_000.0),
        None => 0.0,
    }
}

#[test]
fn meter_measures_fps_and_resolution() {
    let mut hub = StatsHub::new(0);
    for i in 0..=30u64 {
        hub.observe_frame_at(390, 844, true, 0, i * 35_000);
    }
    let s = hub.snapshot_at(1_100_000);
    assert_eq!(s.resolution, "390x844");
    assert_eq!(s.frames_received, 31);
    let f = fps(s.rate);
    assert!(f > 25.0 && f < 35.0, "fps={}", f);
}

#[test]
fn nal_only_frames_count_toward_bitrate_not_frames() {
    let mut hub = StatsHub::new(0);
    hub.observe_frame_at(1, 1, false, 125, 0);
    hub.observe_frame_at(1, 1, false, 0, 1_000_000);
    let s = hub.snapshot_at(1_000_000);
    assert_eq!(s.frames_received, 0);
    assert_eq!(fps(s.rate), 0.0);
}

#[test]
fn fps_decays_to_zero_when_frames_stop() {
    let mut hub = StatsHub::new(0);
    for i in 0..=20u64 {
        hub.observe_frame_at(10, 10, true, 0, i * 60_000);
    }
    assert!(fps(hub.snapshot_at(1_300_000).rate) > 0.0);
    assert_eq!(fps(hub.snapshot_at(10_000_000).rate), 0.0);
}

#[test]
fn device_session_drives_connected() {
    let mut hub = StatsHub::new(0);
    assert!(!hub.snapshot_at(0).connected);
    assert!(hub.device_connected("UDID-1", "Test iPhone", 1_000_000));
    assert!(!hub.device_connected("UDID-1", "Test iPhone", 2_000_000));
    let s = hub.snapshot_at(4_500_000);
    assert!(s.connected);
    assert_eq!(s.device_name, "Test iPhone");
    assert_eq!(s.uptime_secs, 3);
    assert_eq!(hub.device_disconnected(7_000_000), Some(("UDID-1".to_string(), 6)));
    assert!(!hub.snapshot_at(7_000_000).connected);
    assert_eq!(hub.device_disconnected(8_000_000), None);
}

use ios_remote::synthetic::renderer::{render_frame, SyntheticFrame};
use ios_remote::synthetic::state::{apply_long_press, DeviceState, Screen, StateSnapshot};
use ios_remote::synthetic::SyntheticDeviceInfo;

fn render_at(t_ms: u64) -> SyntheticFrame {
    let info = SyntheticDeviceInfo::default_iphone_15();
    let snap = DeviceState::new(info.width, info.height).snapshot();
    render_frame(&info, &snap, t_ms * 1000, t_ms / 33)
}

fn render_state(snap: &StateSnapshot, t_ms: u64) -> SyntheticFrame {
    let info = SyntheticDeviceInfo::default_iphone_15();
    render_frame(&info, snap, t_ms * 1000, t_ms / 33)
}

#[test]
fn render_frame_dimensions_match_iphone_15() {
    let frame = render_at(0);
    assert_eq!(frame.width, 390);
    assert_eq!(frame.height, 844);
    assert_eq!(frame.rgba.len(), (390 * 844 * 4) as usize);
}

#[test]
fn status_bar_top_strip_is_dark() {
    let frame = render_at(0);
    let mut sum: u64 = 0;
    for y in 0..4u32 {
        for x in 0..390u32 {
            let i = ((y * 390 + x) * 4) as usize;
            sum += frame.rgba[i] as u64 + frame.rgba[i + 1] as u64 + frame.rgba[i + 2] as u64;
        }
    }
    let avg = sum / (4 * 390 * 3);
    assert!(avg < 80, "status bar should be dark (avg<80), got {avg}");
}

#[test]
fn frame_counter_increments_visibly_between_frames() {
    let f0 = render_at(0);
    let f100 = render_at(100);
    let mut diff = 0u32;
    for y in 824..844u32 {
        for x in 290..390u32 {
            let i = ((y * 390 + x) * 4) as usize;
            if f0.rgba[i] != f100.rgba[i] || f0.rgba[i + 1] != f100.rgba[i + 1] {
                diff += 1;
            }
        }
    }
    assert!(diff > 0, "frame counter area should change between frames, diff={diff}");
}

#[test]
fn app_grid_pixels_are_brighter_than_wallpaper() {
    let frame = render_at(0);
    let mid_row = 110u32;
    let mut bright_count = 0;
    for x in 0..390u32 {
        let i = ((mid_row * 390 + x) * 4) as usize;
        let lum = frame.rgba[i] as u32 + frame.rgba[i + 1] as u32 + frame.rgba[i + 2] as u32;
        if lum > 300 {
            bright_count += 1;
        }
    }
    assert!(bright_count > 40, "app grid row should have many bright pixels, got {bright_count}");
}

#[test]
fn notification_banner_visible_around_t_30s_window() {
    let off = render_at(15_000);
    let on = render_at(32_000);
    let avg_band = |f: &SyntheticFrame| -> u32 {
        let mut sum = 0u64;
        for y in 100..160u32 {
            for x in 20..370u32 {
                let i = ((y * 390 + x) * 4) as usize;
                sum += f.rgba[i] as u64 + f.rgba[i + 1] as u64 + f.rgba[i + 2] as u64;
            }
        }
        (sum / (60 * 350 * 3)) as u32
    };
    let on_avg = avg_band(&on);
    let off_avg = avg_band(&off);
    assert!(
        on_avg > off_avg + 30,
        "banner should be brighter at t=32s than t=15s (on={on_avg}, off={off_avg})"
    );
}

#[test]
fn alpha_channel_is_set_to_255_everywhere() {
    let frame = render_at(0);
    for y in (0..844u32).step_by(50) {
        for x in (0..390u32).step_by(50) {
            let i = ((y * 390 + x) * 4) as usize;
            assert_eq!(frame.rgba[i + 3], 255, "alpha at ({x},{y}) should be 255");
        }
    }
}

#[test]
fn home_and_app_views_differ_in_content_band() {
    let mut home = DeviceState::new(390, 844);
    let home_snap = home.snapshot();
    home.screen = Screen::App { index: 0 };
    let app_snap = home.snapshot();

    let f_home = render_state(&home_snap, 1000);
    let f_app = render_state(&app_snap, 1000);

    let mut diff = 0u32;
    for y in (200..600u32).step_by(3) {
        for x in (0..390u32).step_by(3) {
            let i = ((y * 390 + x) * 4) as usize;
            if f_home.rgba[i] != f_app.rgba[i] || f_home.rgba[i + 2] != f_app.rgba[i + 2] {
                diff += 1;
            }
        }
    }
    assert!(diff > 500, "home vs app content should differ, diff={diff}");
}

#[test]
fn narrow_device_does_not_panic() {
    let info = SyntheticDeviceInfo { width: 10, height: 50, ..SyntheticDeviceInfo::default_iphone_15() };
    let snap = DeviceState::new(10, 50).snapshot();
    let frame = render_frame(&info, &snap, 0, 0);
    assert_eq!(frame.rgba.len(), (10 * 50 * 4) as usize);
}

#[test]
fn narrow_device_shows_the_banner_without_panicking() {
    let info = SyntheticDeviceInfo { width: 10, height: 50, ..SyntheticDeviceInfo::default_iphone_15() };
    let snap = DeviceState::new(10, 50).snapshot();
    let frame = render_frame(&info, &snap, 32_000_000, 0);
    assert_eq!(frame.rgba.len(), (10 * 50 * 4) as usize);
}

#[test]
fn every_pixel_is_opaque() {
    for t in [0u64, 32_000] {
        let frame = render_at(t);
        assert!(frame.rgba.chunks(4).all(|p| p[3] == 255));
    }
}

#[test]
fn frame_counter_plate_darkens_what_is_below() {
    let f = render_at(0);
    // Row 829 lies on the plate above the digits: wallpaper (49, 19, 69)
    // keeps 55/255 of each channel.
    assert_eq!(px(&f, 330, 829), [10, 4, 14, 255]);
    assert_eq!(px(&f, 330, 835)[3], 255);
}

fn px(f: &SyntheticFrame, x: u32, y: u32) -> [u8; 4] {
    let i = ((y * f.width + x) * 4) as usize;
    [f.rgba[i], f.rgba[i + 1], f.rgba[i + 2], f.rgba[i + 3]]
}

#[test]
fn first_icon_is_palette_red() {
    let f = render_at(0);
    // Inside icon 0 (x 48..108, y 84..144), away from its letter.
    assert_eq!(px(&f, 50, 90), [220, 60, 60, 255]);
    // Icon 1 is green.
    assert_eq!(px(&f, 130, 90), [60, 180, 80, 255]);
}

#[test]
fn wallpaper_gradient_top_and_bottom() {
    let f = render_at(0);
    // Row 60 is below the status bar and above the grid: 10 + 40*60/844 = 12.
    assert_eq!(px(&f, 5, 60), [12, 15, 42, 255]);
    // Row 700 (between the page dots and the counter): 10 + 40*700/844 = 43.
    assert_eq!(px(&f, 5, 700), [43, 19, 64, 255]);
}

#[test]
fn timestamp_is_elapsed_micros() {
    let f = render_at(1234);
    assert_eq!(f.timestamp_us, 1_234_000);
}

#[test]
fn long_press_flash_shows_then_fades() {
    let mut st = DeviceState::new(390, 844);
    apply_long_press(&mut st, 200, 300, 1_000_000);
    let snap = st.snapshot();
    let info = SyntheticDeviceInfo::default_iphone_15();
    let on = render_frame(&info, &snap, 1_100_000, 0);
    let off = render_frame(&info, &snap, 1_500_000, 0);
    // Top edge of the square at y = 300 - 22.
    assert_eq!(px(&on, 200, 278), [255, 255, 255, 255]);
    assert_ne!(px(&off, 200, 278), [255, 255, 255, 255]);
}


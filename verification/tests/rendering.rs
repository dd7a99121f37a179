use ios_remote::features::frame::Frame;
use ios_remote::features::screensaver::{Screensaver, ScreensaverMode};
use ios_remote::features::screenshot::{encode_png, screenshot_path};
use ios_remote::features::stats_export::edl_text;
use ios_remote::features::watermark::{text_watermark, watermark_origin, WatermarkPosition};
use ios_remote::usb::screen_capture::decode_png_to_rgba;

#[test]
fn watermark_corners_keep_an_eight_pixel_margin() {
    assert_eq!(watermark_origin(WatermarkPosition::TopLeft, 390, 844, 50, 18), (8, 8));
    assert_eq!(watermark_origin(WatermarkPosition::TopRight, 390, 844, 50, 18), (332, 8));
    assert_eq!(watermark_origin(WatermarkPosition::BottomLeft, 390, 844, 50, 18), (8, 818));
    assert_eq!(watermark_origin(WatermarkPosition::BottomRight, 390, 844, 50, 18), (332, 818));
    assert_eq!(watermark_origin(WatermarkPosition::Center, 390, 844, 50, 18), (170, 413));
    assert_eq!(watermark_origin(WatermarkPosition::Custom(3, 4), 390, 844, 50, 18), (3, 4));
    assert_eq!(watermark_origin(WatermarkPosition::BottomRight, 10, 10, 50, 18), (0, 0));
}

#[test]
fn text_watermark_draws_blocks_over_a_dark_band() {
    let (px, w, h) = text_watermark("AB");
    assert_eq!((w, h), (20, 18));
    assert_eq!(px.len(), 20 * 18 * 4);
    let at = |x: u32, y: u32| -> &[u8] {
        let i = ((y * w + x) * 4) as usize;
        &px[i..i + 4]
    };
    assert_eq!(at(0, 0), &[0, 0, 0, 128]);
    assert_eq!(at(4, 4), &[255, 255, 255, 200]);
    assert_eq!(at(8, 10), &[255, 255, 255, 200]);
    assert_eq!(at(9, 4), &[0, 0, 0, 128]);
    assert_eq!(at(10, 4), &[255, 255, 255, 200]);
    assert_eq!(at(4, 11), &[0, 0, 0, 128]);
}

#[test]
fn edl_lists_one_event_per_sample() {
    let edl = edl_text("demo", 2);
    assert_eq!(
        edl,
        "TITLE: demo\nFCM: NON-DROP FRAME\n\n001  AX  V  C  00:00:00:00 00:00:00:00 00:00:00:00 00:00:00:00\n002  AX  V  C  00:00:01:00 00:00:01:00 00:00:01:00 00:00:01:00\n"
    );
    let long = edl_text("x", 3662);
    assert!(long.ends_with("3662  AX  V  C  01:01:01:00 01:01:01:00 01:01:01:00 01:01:01:00\n"));
}

#[test]
fn png_encoding_roundtrips_through_the_decoder() {
    let f = Frame { width: 2, height: 1, rgba: vec![1, 2, 3, 4, 5, 6, 7, 8, 99], timestamp_us: 0, h264_nalu: None };
    let png = encode_png(&f).unwrap();
    assert!(png.starts_with(&[0x89, b'P', b'N', b'G']));
    let (rgba, w, h) = decode_png_to_rgba(&png).unwrap();
    assert_eq!((w, h), (2, 1));
    assert_eq!(rgba, vec![1, 2, 3, 4, 5, 6, 7, 8]);
    let short = Frame { width: 3, height: 3, rgba: vec![0; 8], timestamp_us: 0, h264_nalu: None };
    assert_eq!(encode_png(&short), Err("Failed to create image buffer".to_string()));
    assert_eq!(screenshot_path("20250101_120000_123"), "screenshots/ss_20250101_120000_123.png");
}

#[test]
fn blank_screensaver_is_dark_and_opaque() {
    let s = Screensaver { enabled: true, mode: ScreensaverMode::Blank };
    let px = s.render_at(4, 2, "", "");
    assert_eq!(px, [0x1A, 0x1A, 0x1A, 255].repeat(8));
    assert_eq!(s.render(4, 2), Some(px));
}

#[test]
fn clock_screensaver_draws_time_and_date() {
    let s = Screensaver::new();
    assert!(s.enabled);
    assert!(s.fits(390, 844, "12:34:56", "2025-01-02"));
    assert!(!s.fits(100, 844, "12:34:56", "2025-01-02"));
    let px = s.render_at(390, 844, "12:34:56", "2025-01-02");
    let at = |x: u32, y: u32| -> [u8; 4] {
        let i = ((y * 390 + x) * 4) as usize;
        [px[i], px[i + 1], px[i + 2], px[i + 3]]
    };
    let cx = 195 - 80;
    let cy = 422 - 20;
    assert_eq!(at(cx + 1, cy + 1), [0x00, 0xD4, 0xFF, 255]);
    assert_eq!(at(cx, cy), [0x1A, 0x1A, 0x1A, 255]);
    assert_eq!(at(cx + 16, cy + 1), [0x1A, 0x1A, 0x1A, 255]);
    let dx = 195 - 40;
    assert_eq!(at(dx, cy + 50), [0x88, 0x88, 0x88, 255]);
    assert_eq!(at(0, 0), [0x1A, 0x1A, 0x1A, 255]);
    assert!(s.render(390, 844).is_some());
}

#[test]
fn connection_screensaver_shows_address_and_hint() {
    let s = Screensaver { enabled: true, mode: ScreensaverMode::ConnectionInfo { ip: "10.0.0.2".to_string(), port: 8080 } };
    let px = s.render_at(390, 844, "", "");
    let msg_len = "ios-remote: 10.0.0.2:8080".len() as u32;
    let cx = 195 - (msg_len * 8) / 2;
    let i = (((422 - 20) * 390 + cx) * 4) as usize;
    assert_eq!(&px[i..i + 4], &[0x00, 0xD4, 0xFF, 255]);
    let hx = 195 - 114;
    let j = (((422 + 20) * 390 + hx) * 4) as usize;
    assert_eq!(&px[j..j + 4], &[0x66, 0x66, 0x66, 255]);
}

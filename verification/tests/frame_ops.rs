use ios_remote::features::frame::Frame;
use ios_remote::features::screen_diff::{diff_highlight, diff_sum};
use ios_remote::features::screen_rotation::{flip_horizontal, flip_vertical};
use ios_remote::features::smart_crop::smart_crop;
use ios_remote::features::smart_recording::compare_frames;

fn solid(w: u32, h: u32, px: [u8; 4]) -> Frame {
    Frame { width: w, height: h, rgba: px.repeat((w * h) as usize), timestamp_us: 0, h264_nalu: None }
}

fn set_px(f: &mut Frame, x: u32, y: u32, px: [u8; 4]) {
    let i = ((y * f.width + x) * 4) as usize;
    f.rgba[i..i + 4].copy_from_slice(&px);
}

fn numbered(w: u32, h: u32) -> Vec<u8> {
    (0..w * h * 4).map(|i| (i % 251) as u8).collect()
}

#[test]
fn flip_horizontal_mirrors_each_row() {
    let mut buf = vec![1, 1, 1, 1, 2, 2, 2, 2, 3, 3, 3, 3, 4, 4, 4, 4, 5, 5, 5, 5, 6, 6, 6, 6];
    flip_horizontal(&mut buf, 3, 2);
    assert_eq!(buf, vec![3, 3, 3, 3, 2, 2, 2, 2, 1, 1, 1, 1, 6, 6, 6, 6, 5, 5, 5, 5, 4, 4, 4, 4]);
}

#[test]
fn flip_vertical_reverses_rows() {
    let mut buf = vec![1, 1, 1, 1, 2, 2, 2, 2, 3, 3, 3, 3, 4, 4, 4, 4, 5, 5, 5, 5, 6, 6, 6, 6];
    flip_vertical(&mut buf, 2, 3);
    assert_eq!(buf, vec![5, 5, 5, 5, 6, 6, 6, 6, 3, 3, 3, 3, 4, 4, 4, 4, 1, 1, 1, 1, 2, 2, 2, 2]);
}

#[test]
fn flipping_twice_restores_the_frame() {
    let orig = numbered(7, 5);
    let mut buf = orig.clone();
    flip_horizontal(&mut buf, 7, 5);
    assert_ne!(buf, orig);
    flip_horizontal(&mut buf, 7, 5);
    assert_eq!(buf, orig);
    flip_vertical(&mut buf, 7, 5);
    assert_ne!(buf, orig);
    flip_vertical(&mut buf, 7, 5);
    assert_eq!(buf, orig);
}

#[test]
fn flips_leave_bytes_past_the_frame() {
    let mut buf = numbered(2, 2);
    buf.extend_from_slice(&[9, 9]);
    flip_horizontal(&mut buf, 2, 2);
    flip_vertical(&mut buf, 2, 2);
    assert_eq!(&buf[16..], &[9, 9]);
}

#[test]
fn diff_highlight_tints_changed_pixels_red() {
    let prev = solid(2, 1, [30, 60, 90, 255]);
    let mut curr = solid(2, 1, [30, 60, 90, 255]);
    set_px(&mut curr, 1, 0, [40, 70, 100, 255]);
    let out = diff_highlight(&prev, &curr, 20);
    assert_eq!(out, vec![30, 60, 90, 255, 255, 23, 33, 255]);
    let out = diff_highlight(&prev, &curr, 30);
    assert_eq!(out, curr.rgba);
}

#[test]
fn diff_sum_adds_colour_differences() {
    let a = solid(3, 1, [0, 0, 0, 255]);
    let b = solid(3, 1, [1, 2, 3, 0]);
    assert_eq!(diff_sum(&a, &b), 18);
    let short = Frame { rgba: vec![1, 2, 3, 0], ..solid(3, 1, [0, 0, 0, 0]) };
    assert_eq!(diff_sum(&a, &short), 6);
}

#[test]
fn smart_crop_finds_the_content_box() {
    let mut f = solid(20, 10, [0, 0, 0, 255]);
    for y in 3..=6 {
        for x in 5..=12 {
            set_px(&mut f, x, y, [200, 200, 200, 255]);
        }
    }
    let r = smart_crop(&f, 30);
    assert_eq!((r.x, r.y, r.w, r.h), (5, 3, 8, 4));
    assert_eq!(r.cropped_rgba.len(), 8 * 4 * 4);
    assert!(r.cropped_rgba.chunks(4).all(|p| p == [200, 200, 200, 255]));
}

#[test]
fn smart_crop_keeps_the_frame_without_content() {
    let f = solid(8, 8, [10, 10, 10, 255]);
    let r = smart_crop(&f, 5);
    assert_eq!((r.x, r.y, r.w, r.h), (0, 0, 8, 8));
    assert_eq!(r.cropped_rgba, f.rgba);
    let mut single = solid(20, 20, [10, 10, 10, 255]);
    set_px(&mut single, 10, 10, [250, 250, 250, 255]);
    let r = smart_crop(&single, 5);
    assert_eq!((r.x, r.y, r.w, r.h), (10, 10, 1, 1));
    assert_eq!(r.cropped_rgba, vec![250, 250, 250, 255]);
}

#[test]
fn smart_crop_cuts_a_single_row() {
    let mut f = solid(20, 20, [0, 0, 0, 255]);
    for x in 7..=12 {
        set_px(&mut f, x, 10, [255, 255, 255, 255]);
    }
    let r = smart_crop(&f, 30);
    assert_eq!((r.x, r.y, r.w, r.h), (7, 10, 6, 1));
    assert_eq!(r.cropped_rgba.len(), 6 * 4);
}

#[test]
fn compare_frames_puts_frames_side_by_side() {
    let a = solid(2, 1, [1, 2, 3, 4]);
    let b = solid(1, 1, [5, 6, 7, 8]);
    let c = compare_frames(&a, &b);
    assert_eq!(c.width, 8);
    assert_eq!(c.height, 1);
    assert!(c.h264_nalu.is_none());
    let px: Vec<&[u8]> = c.rgba.chunks(4).collect();
    assert_eq!(px[0], &[1, 2, 3, 4]);
    assert_eq!(px[1], &[1, 2, 3, 4]);
    for d in 2..6 {
        assert_eq!(px[d], &[255, 0, 0, 255]);
    }
    assert_eq!(px[6], &[5, 6, 7, 8]);
    assert_eq!(px[7], &[0, 0, 0, 0]);
}

use ios_remote::features::frame::Frame;
use ios_remote::features::qr_scanner::{decoded_codes, qr_gray_image, rgba_to_gray};
use ios_remote::features::sharing::encode_jpeg;

/// The library's grey image handed to rqrr, as the application does.
fn scan_qr_codes(frame: &Frame) -> Vec<String> {
    let Some(gray) = qr_gray_image(frame) else {
        return Vec::new();
    };
    let img = image::GrayImage::from_raw(frame.width, frame.height, gray).unwrap();
    let mut prepared = rqrr::PreparedImage::prepare(img);
    let outcomes: Vec<Option<String>> =
        prepared.detect_grids().iter().map(|g| g.decode().ok().map(|(_m, c)| c)).collect();
    decoded_codes(outcomes)
}

#[test]
fn gray_image_is_none_for_an_empty_frame() {
    assert!(qr_gray_image(&solid(0, 3, [1, 2, 3, 4])).is_none());
    let g = qr_gray_image(&solid(2, 1, [255, 0, 0, 255])).unwrap();
    assert_eq!(g, vec![76, 76]);
}

fn solid(w: u32, h: u32, px: [u8; 4]) -> Frame {
    Frame { width: w, height: h, rgba: px.repeat((w * h) as usize), timestamp_us: 0, h264_nalu: None }
}

fn gf_mul(x: u8, y: u8) -> u8 {
    let mut z: u32 = 0;
    for i in (0..8).rev() {
        z = (z << 1) ^ ((z >> 7) * 0x11D);
        z ^= ((y as u32 >> i) & 1) * x as u32;
    }
    z as u8
}

fn rs_remainder(data: &[u8], degree: usize) -> Vec<u8> {
    let mut divisor = vec![0u8; degree];
    divisor[degree - 1] = 1;
    let mut root: u8 = 1;
    for _ in 0..degree {
        for j in 0..degree {
            divisor[j] = gf_mul(divisor[j], root);
            if j + 1 < degree {
                divisor[j] ^= divisor[j + 1];
            }
        }
        root = gf_mul(root, 2);
    }
    let mut result = vec![0u8; degree];
    for &b in data {
        let factor = b ^ result[0];
        result.remove(0);
        result.push(0);
        for i in 0..degree {
            result[i] ^= gf_mul(divisor[i], factor);
        }
    }
    result
}

/// A version 1, level L, mask 0 QR code of `text` (byte mode, at most 17
/// bytes), as rows of dark (`true`) and light modules.
fn qr_matrix(text: &str) -> Vec<Vec<bool>> {
    let size = 21usize;
    let mut bits: Vec<bool> = Vec::new();
    let put = |v: u32, n: u32, bits: &mut Vec<bool>| {
        for i in (0..n).rev() {
            bits.push((v >> i) & 1 == 1);
        }
    };
    put(0b0100, 4, &mut bits);
    put(text.len() as u32, 8, &mut bits);
    for b in text.bytes() {
        put(b as u32, 8, &mut bits);
    }
    let capacity = 19 * 8;
    let term = (capacity - bits.len()).min(4);
    put(0, term as u32, &mut bits);
    while bits.len() % 8 != 0 {
        bits.push(false);
    }
    let mut data: Vec<u8> = bits.chunks(8).map(|c| c.iter().fold(0u8, |a, &b| (a << 1) | b as u8)).collect();
    let mut pad = 0xECu8;
    while data.len() < 19 {
        data.push(pad);
        pad = if pad == 0xEC { 0x11 } else { 0xEC };
    }
    let ec = rs_remainder(&data, 7);
    let all: Vec<u8> = data.iter().chain(ec.iter()).cloned().collect();

    let mut m = vec![vec![false; size]; size];
    let mut func = vec![vec![false; size]; size];
    let set = |x: usize, y: usize, dark: bool, m: &mut Vec<Vec<bool>>, f: &mut Vec<Vec<bool>>| {
        m[y][x] = dark;
        f[y][x] = true;
    };
    for i in 0..size {
        set(6, i, i % 2 == 0, &mut m, &mut func);
        set(i, 6, i % 2 == 0, &mut m, &mut func);
    }
    for (cx, cy) in [(3i32, 3i32), (size as i32 - 4, 3), (3, size as i32 - 4)] {
        for dy in -4i32..=4 {
            for dx in -4i32..=4 {
                let dist = dx.abs().max(dy.abs());
                let (xx, yy) = (cx + dx, cy + dy);
                if xx >= 0 && yy >= 0 && (xx as usize) < size && (yy as usize) < size {
                    set(xx as usize, yy as usize, dist != 2 && dist != 4, &mut m, &mut func);
                }
            }
        }
    }
    let fdata: u32 = (1 << 3) | 0;
    let mut rem = fdata;
    for _ in 0..10 {
        rem = (rem << 1) ^ ((rem >> 9) * 0x537);
    }
    let fbits = ((fdata << 10) | rem) ^ 0x5412;
    let bit = |i: u32| (fbits >> i) & 1 == 1;
    for i in 0..=5 {
        set(8, i, bit(i as u32), &mut m, &mut func);
    }
    set(8, 7, bit(6), &mut m, &mut func);
    set(8, 8, bit(7), &mut m, &mut func);
    set(7, 8, bit(8), &mut m, &mut func);
    for i in 9..15 {
        set(14 - i, 8, bit(i as u32), &mut m, &mut func);
    }
    for i in 0..8 {
        set(size - 1 - i, 8, bit(i as u32), &mut m, &mut func);
    }
    for i in 8..15 {
        set(8, size - 15 + i, bit(i as u32), &mut m, &mut func);
    }
    set(8, size - 8, true, &mut m, &mut func);

    let mut i = 0usize;
    let mut right = size as i32 - 1;
    while right >= 1 {
        if right == 6 {
            right = 5;
        }
        for vert in 0..size {
            for j in 0..2 {
                let x = (right - j) as usize;
                let upward = ((right + 1) & 2) == 0;
                let y = if upward { size - 1 - vert } else { vert };
                if !func[y][x] && i < all.len() * 8 {
                    m[y][x] = (all[i >> 3] >> (7 - (i & 7))) & 1 == 1;
                    i += 1;
                }
            }
        }
        right -= 2;
    }
    for y in 0..size {
        for x in 0..size {
            if !func[y][x] && (x + y) % 2 == 0 {
                m[y][x] = !m[y][x];
            }
        }
    }
    m
}

/// The matrix drawn black on white, `scale` pixels per module, with a quiet
/// zone of four modules.
fn qr_frame(m: &[Vec<bool>], scale: usize) -> Frame {
    let n = m.len() + 8;
    let side = n * scale;
    let mut rgba = vec![255u8; side * side * 4];
    for py in 0..side {
        for px in 0..side {
            let (mx, my) = (px / scale, py / scale);
            let dark = mx >= 4 && my >= 4 && mx < n - 4 && my < n - 4 && m[my - 4][mx - 4];
            if dark {
                let i = (py * side + px) * 4;
                rgba[i] = 0;
                rgba[i + 1] = 0;
                rgba[i + 2] = 0;
            }
        }
    }
    Frame { width: side as u32, height: side as u32, rgba, timestamp_us: 0, h264_nalu: None }
}

#[test]
fn gray_levels_use_the_luma_weights() {
    let rgba = vec![255, 0, 0, 255, 0, 255, 0, 255, 0, 0, 255, 255, 10, 20, 30, 255];
    assert_eq!(rgba_to_gray(&rgba, 4, 1), vec![76, 149, 29, 18]);
    assert_eq!(rgba_to_gray(&rgba, 2, 2), vec![76, 149, 29, 18]);
}

#[test]
fn gray_pixels_beyond_the_buffer_are_black() {
    let rgba = vec![255, 255, 255, 255, 100, 100];
    assert_eq!(rgba_to_gray(&rgba, 3, 1), vec![255, 0, 0]);
    assert_eq!(rgba_to_gray(&[], 0, 5), Vec::<u8>::new());
}

#[test]
fn only_decoded_grids_yield_codes() {
    let outcomes = vec![None, Some("a".to_string()), None, Some("b".to_string())];
    assert_eq!(decoded_codes(outcomes), vec!["a".to_string(), "b".to_string()]);
    assert!(decoded_codes(vec![None, None]).is_empty());
}

#[test]
fn empty_frames_have_no_codes() {
    assert!(scan_qr_codes(&solid(0, 0, [0, 0, 0, 255])).is_empty());
    let mut no_pixels = solid(10, 10, [0, 0, 0, 255]);
    no_pixels.rgba.clear();
    assert!(scan_qr_codes(&no_pixels).is_empty());
}

#[test]
fn a_blank_screen_has_no_codes() {
    assert!(scan_qr_codes(&solid(64, 48, [255, 255, 255, 255])).is_empty());
}

#[test]
fn a_drawn_qr_code_is_read_back() {
    let frame = qr_frame(&qr_matrix("ios-remote"), 4);
    assert_eq!(scan_qr_codes(&frame), vec!["ios-remote".to_string()]);
}

#[test]
fn jpeg_needs_the_whole_image() {
    let mut f = solid(4, 4, [1, 2, 3, 255]);
    f.rgba.truncate(20);
    assert_eq!(encode_jpeg(&f), Err("Image buffer creation failed".to_string()));
}

#[test]
fn jpeg_of_a_frame_is_a_whole_jpeg_file() {
    let jpeg = encode_jpeg(&solid(16, 8, [200, 30, 40, 255])).unwrap();
    assert_eq!(&jpeg[..2], &[0xFF, 0xD8]);
    assert_eq!(&jpeg[jpeg.len() - 2..], &[0xFF, 0xD9]);
    let opaque = encode_jpeg(&solid(16, 8, [200, 30, 40, 0])).unwrap();
    assert_eq!(jpeg, opaque);
    let decoded = image::load_from_memory(&jpeg).unwrap().to_rgb8();
    assert_eq!(decoded.dimensions(), (16, 8));
    let p = decoded.get_pixel(8, 4);
    assert!((p[0] as i32 - 200).abs() < 12 && (p[1] as i32 - 30).abs() < 12 && (p[2] as i32 - 40).abs() < 12);
}

#[test]
fn jpeg_of_an_empty_frame_is_refused() {
    let f = solid(0, 4, [1, 2, 3, 255]);
    assert!(encode_jpeg(&f).is_err());
}

use ios_remote::synthetic::layout::{
    app_letter, back_zone, global_app_index, grid_left, hit_test_icon, home_indicator_zone,
    icon_rect, GRID_COLS, GRID_ROWS, GRID_TOP, ICON_PAD_X, ICON_PAD_Y, ICON_SIZE, SLOTS_PER_PAGE,
};

const W: u32 = 390;

#[test]
fn hit_test_center_hits_every_cell() {
    for row in 0..GRID_ROWS {
        for col in 0..GRID_COLS {
            let r = icon_rect(W, row, col);
            let cx = r.x + r.w / 2;
            let cy = r.y + r.h / 2;
            assert_eq!(
                hit_test_icon(W, cx, cy),
                Some(row * GRID_COLS + col),
                "centre of ({row},{col}) should hit its slot"
            );
        }
    }
}

#[test]
fn hit_test_inter_icon_padding_misses() {
    let r0 = icon_rect(W, 0, 0);
    let gap_x = r0.x + ICON_SIZE + ICON_PAD_X / 2;
    let cy = r0.y + r0.h / 2;
    assert_eq!(hit_test_icon(W, gap_x, cy), None);
}

#[test]
fn hit_test_status_bar_misses() {
    assert_eq!(hit_test_icon(W, 10, 10), None);
}

#[test]
fn first_icon_origin_is_centered_grid_left() {
    let r = icon_rect(W, 0, 0);
    assert_eq!(r.x, grid_left(W));
    assert_eq!(r.y, GRID_TOP);
}

#[test]
fn grid_left_does_not_underflow_on_narrow_device() {
    assert_eq!(grid_left(10), 0);
    assert_eq!(grid_left(0), 0);
}

#[test]
fn global_app_index_uses_page_offset() {
    assert_eq!(global_app_index(0, 0), 0);
    assert_eq!(global_app_index(0, 23), 23);
    assert_eq!(global_app_index(1, 0), SLOTS_PER_PAGE);
}

#[test]
fn app_letter_wraps_past_z() {
    assert_eq!(app_letter(0), 'A');
    assert_eq!(app_letter(23), 'X');
    assert_eq!(app_letter(25), 'Z');
    assert_eq!(app_letter(26), 'A');
    assert_eq!(app_letter(u32::MAX), app_letter(u32::MAX % 26));
}

#[test]
fn back_and_home_zones_are_disjoint_from_grid() {
    assert!(back_zone().y < GRID_TOP);
    let b = back_zone();
    assert_eq!((b.x, b.y, b.w, b.h), (0, 44, 60, 40));
    assert!(b.y + b.h <= GRID_TOP);
    assert!(!(b.contains(50, 85) && icon_rect(W, 0, 0).contains(50, 85)));
    assert!(home_indicator_zone(W, 844).y > GRID_TOP + GRID_ROWS * (ICON_SIZE + ICON_PAD_Y));
}

#[test]
fn grid_is_centred_on_the_iphone_15() {
    // (390 - 294) / 2
    assert_eq!(grid_left(390), 48);
    let r = icon_rect(390, 5, 3);
    assert_eq!((r.x, r.y, r.w, r.h), (48 + 3 * 78, 84 + 5 * 80, 60, 60));
}

#[test]
fn home_indicator_narrower_than_bar() {
    let z = home_indicator_zone(100, 20);
    assert_eq!((z.x, z.y, z.w, z.h), (0, 0, 100, 28));
    let z = home_indicator_zone(390, 844);
    assert_eq!((z.x, z.y, z.w, z.h), (125, 816, 140, 28));
}

#[test]
fn contains_is_half_open() {
    let r = back_zone();
    assert!(r.contains(0, 44));
    assert!(r.contains(59, 83));
    assert!(!r.contains(60, 50));
    assert!(!r.contains(10, 84));
}

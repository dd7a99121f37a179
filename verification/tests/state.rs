use ios_remote::synthetic::layout;
use ios_remote::synthetic::state::{
    apply_long_press, apply_swipe, apply_tap, DeviceState, InputKind, Screen, APP_MAX_SCROLL,
    HOME_PAGES,
};

fn dev() -> DeviceState {
    DeviceState::new(390, 844)
}

fn icon_center(row: u32, col: u32) -> (u32, u32) {
    let r = layout::icon_rect(390, row, col);
    (r.x + r.w / 2, r.y + r.h / 2)
}

#[test]
fn tap_first_icon_opens_app_a() {
    let mut st = dev();
    let (x, y) = icon_center(0, 0);
    apply_tap(&mut st, x, y, 1000);
    assert_eq!(st.screen, Screen::App { index: 0 });
    assert_eq!(st.interactions, 1);
}

#[test]
fn tap_in_grid_padding_is_noop_but_counts() {
    let mut st = dev();
    let r0 = layout::icon_rect(390, 0, 0);
    let gap_x = r0.x + layout::ICON_SIZE + layout::ICON_PAD_X / 2;
    apply_tap(&mut st, gap_x, r0.y + 30, 1000);
    assert_eq!(st.screen, Screen::Home);
    assert_eq!(st.interactions, 1);
}

#[test]
fn tap_second_page_icon_uses_page_offset() {
    let mut st = dev();
    st.home_page = 1;
    let (x, y) = icon_center(0, 0);
    apply_tap(&mut st, x, y, 1000);
    assert_eq!(st.screen, Screen::App { index: layout::SLOTS_PER_PAGE });
}

#[test]
fn tap_back_zone_returns_home() {
    let mut st = dev();
    st.screen = Screen::App { index: 3 };
    let bz = layout::back_zone();
    apply_tap(&mut st, bz.x + 5, bz.y + 5, 2000);
    assert_eq!(st.screen, Screen::Home);
}

#[test]
fn tap_home_indicator_returns_home() {
    let mut st = dev();
    st.screen = Screen::App { index: 3 };
    let hz = layout::home_indicator_zone(390, 844);
    apply_tap(&mut st, hz.x + hz.w / 2, hz.y + 5, 2000);
    assert_eq!(st.screen, Screen::Home);
}

#[test]
fn tap_in_app_content_is_noop() {
    let mut st = dev();
    st.screen = Screen::App { index: 3 };
    apply_tap(&mut st, 195, 400, 2000);
    assert_eq!(st.screen, Screen::App { index: 3 });
}

#[test]
fn swipe_left_advances_home_page() {
    let mut st = dev();
    apply_swipe(&mut st, 300, 400, 100, 400, 1000);
    assert_eq!(st.home_page, 1);
    apply_swipe(&mut st, 300, 400, 100, 400, 1000);
    assert_eq!(st.home_page, HOME_PAGES - 1);
}

#[test]
fn swipe_right_clamps_at_zero() {
    let mut st = dev();
    apply_swipe(&mut st, 100, 400, 300, 400, 1000);
    assert_eq!(st.home_page, 0);
}

#[test]
fn subthreshold_swipe_is_noop() {
    let mut st = dev();
    apply_swipe(&mut st, 100, 400, 120, 400, 1000);
    assert_eq!(st.home_page, 0);
}

#[test]
fn swipe_up_scrolls_app_clamped() {
    let mut st = dev();
    st.screen = Screen::App { index: 0 };
    apply_swipe(&mut st, 195, 700, 195, 100, 1000);
    assert_eq!(st.app_scroll, APP_MAX_SCROLL);
}

#[test]
fn swipe_down_clamps_scroll_at_zero() {
    let mut st = dev();
    st.screen = Screen::App { index: 0 };
    st.app_scroll = 100;
    apply_swipe(&mut st, 195, 100, 195, 700, 1000);
    assert_eq!(st.app_scroll, 0);
}

#[test]
fn long_press_records_flash() {
    let mut st = dev();
    apply_long_press(&mut st, 50, 60, 5000);
    assert_eq!(st.last_input_kind, InputKind::LongPress);
    assert_eq!((st.last_input_x, st.last_input_y), (50, 60));
    assert_eq!(st.last_input_at_us, 5000);
}

#[test]
fn snapshot_mirrors_state() {
    let mut st = dev();
    let (x, y) = icon_center(1, 1);
    apply_tap(&mut st, x, y, 1234);
    let snap = st.snapshot();
    assert_eq!(snap.screen, st.screen);
    assert_eq!(snap.interactions, 1);
    assert_eq!(snap.last_input_at_us, 1234);
}

#[test]
fn every_gesture_counts_once() {
    let mut st = dev();
    apply_tap(&mut st, 1, 1, 1);
    apply_swipe(&mut st, 1, 1, 2, 2, 2);
    apply_long_press(&mut st, 3, 3, 3);
    assert_eq!(st.interactions, 3);
    assert_eq!(st.last_input_kind, InputKind::LongPress);
}

#[test]
fn mostly_vertical_swipe_on_home_does_not_flip() {
    let mut st = dev();
    apply_swipe(&mut st, 300, 100, 200, 400, 1);
    assert_eq!(st.home_page, 0);
    assert_eq!((st.last_input_x, st.last_input_y), (200, 400));
    assert_eq!(st.last_input_kind, InputKind::Swipe);
}

#[test]
fn horizontal_swipe_in_app_does_not_scroll() {
    let mut st = dev();
    st.screen = Screen::App { index: 2 };
    apply_swipe(&mut st, 300, 400, 100, 420, 1);
    assert_eq!(st.app_scroll, 0);
    assert_eq!(st.home_page, 0);
}

#[test]
fn opening_an_app_resets_scroll() {
    let mut st = dev();
    st.app_scroll = 250;
    let (x, y) = icon_center(2, 3);
    apply_tap(&mut st, x, y, 9);
    assert_eq!(st.screen, Screen::App { index: 11 });
    assert_eq!(st.app_scroll, 0);
}

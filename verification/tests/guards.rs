use ios_remote::synthetic::layout;
use ios_remote::synthetic::renderer::renderable;
use ios_remote::synthetic::state::{DeviceState, InputKind, Screen};
use ios_remote::ui::stats::StatsHub;

#[test]
fn ordinary_gestures_are_accepted() {
    let st = DeviceState::new(390, 844);
    let r = layout::icon_rect(390, 0, 0);
    assert!(st.can_tap(r.x + 1, r.y + 1));
    assert!(st.can_tap(5, 5));
    assert!(st.can_swipe(300, 400, 80, 400));
}

#[test]
fn exhausted_interaction_counter_refuses_gestures() {
    let mut st = DeviceState::new(390, 844);
    st.interactions = u64::MAX;
    assert!(!st.can_tap(5, 5));
    assert!(!st.can_swipe(0, 0, 10, 10));
}

#[test]
fn swipe_travel_must_fit_i32() {
    let st = DeviceState::new(390, 844);
    assert!(!st.can_swipe(0x8000_0000, 0, 0x7FFF_FFFF, 0));
}

#[test]
fn tap_on_last_home_page_icon_overflows() {
    let mut st = DeviceState::new(390, 844);
    st.home_page = u32::MAX / 24;
    let r = layout::icon_rect(390, 5, 3);
    assert!(!st.can_tap(r.x + 1, r.y + 1));
    st.screen = Screen::App { index: 0 };
    assert!(st.can_tap(r.x + 1, r.y + 1));
}

#[test]
fn frames_render_unless_too_large() {
    let st = DeviceState::new(390, 844);
    let snap = st.snapshot();
    assert!(renderable(390, 844, &snap, 0));
    assert!(!renderable(70_000, 70_000, &snap, 0));
    assert!(renderable(30, 844, &snap, 31_000_000));
    assert!(renderable(30, 844, &snap, 36_000_000));
}

#[test]
fn long_press_flash_near_the_edge_of_the_range_is_refused() {
    let mut st = DeviceState::new(390, 844);
    st.last_input_kind = InputKind::LongPress;
    st.last_input_x = u32::MAX - 10;
    st.last_input_at_us = 1_000;
    let snap = st.snapshot();
    assert!(!renderable(390, 844, &snap, 2_000));
    assert!(renderable(390, 844, &snap, 1_000 + 400_000));
}

#[test]
fn meter_counts_until_its_counters_are_full() {
    let mut hub = StatsHub::new(0);
    assert!(hub.can_observe(1000));
    assert!(hub.can_observe(u64::MAX));
    hub.observe_frame_at(390, 844, true, 10, 1);
    assert!(!hub.can_observe(u64::MAX));
    assert!(hub.can_observe(u64::MAX - 10));
}

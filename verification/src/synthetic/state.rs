//! Interactive state of the synthetic device.
//!
//! Input (tap / swipe / long-press) mutates a `DeviceState`; the renderer
//! reads a cheap `StateSnapshot` every frame to draw the current screen.
use vstd::prelude::*;
use crate::synthetic::layout::{
    self, slot_rect, spec_back_zone, spec_home_indicator_zone, SLOTS_PER_PAGE,
};

verus! {

/// Number of swipeable home-screen pages.
pub const HOME_PAGES: u32 = 2;
/// Minimum travel (px) before a swipe is recognised as a page flip / scroll.
pub const SWIPE_THRESHOLD: i32 = 40;
/// Maximum app-view scroll offset (px).
pub const APP_MAX_SCROLL: i32 = 600;
/// Long-press highlight fade duration (microseconds).
pub const FLASH_DURATION_US: u64 = 400_000;

/// Which screen is currently shown.
#[derive(Clone, Copy, Debug, PartialEq, Eq, Structural)]
pub enum Screen {
    Home,
    App { index: u32 },
}

/// The most recent input gesture.
#[derive(Clone, Copy, Debug, PartialEq, Eq, Structural)]
pub enum InputKind {
    NoInput,
    Tap,
    Swipe,
    LongPress,
}

/// Mutable interactive state of the synthetic device.
#[derive(Clone, Debug)]
pub struct DeviceState {
    pub screen: Screen,
    pub home_page: u32,
    pub app_scroll: i32,
    pub last_input_kind: InputKind,
    pub last_input_x: u32,
    pub last_input_y: u32,
    pub last_input_at_us: u64,
    pub interactions: u64,
    /// Device dimensions, used for hit-testing the grid and home indicator.
    pub width: u32,
    pub height: u32,
}

/// Cheap `Copy` view the renderer reads each frame.
#[derive(Clone, Copy, Debug)]
pub struct StateSnapshot {
    pub screen: Screen,
    pub home_page: u32,
    pub app_scroll: i32,
    pub last_input_kind: InputKind,
    pub last_input_x: u32,
    pub last_input_y: u32,
    pub last_input_at_us: u64,
    pub interactions: u64,
}

/// The grid slot hit by `(x, y)` on a device `w` pixels wide, if any.
pub open spec fn spec_hit(w: u32, x: u32, y: u32) -> Option<u32> {
    if exists|s: u32| s < SLOTS_PER_PAGE && #[trigger] slot_rect(w, s).spec_contains(x as int, y as int) {
        Some(choose|s: u32| s < SLOTS_PER_PAGE && #[trigger] slot_rect(w, s).spec_contains(x as int, y as int))
    } else {
        None
    }
}

/// Signed travel of a swipe along one axis, as the device computes it: both
/// coordinates are reinterpreted as `i32` before subtracting.
pub open spec fn travel(from: u32, to: u32) -> int {
    (to as i32) as int - (from as i32) as int
}

/// Absolute value over the integers.
pub open spec fn abs(v: int) -> int {
    if v < 0 { -v } else { v }
}

impl DeviceState {
    /// Device width used for hit-testing.
    pub open spec fn spec_width(self) -> u32 {
        self.width
    }

    /// Device height used for hit-testing.
    pub open spec fn spec_height(self) -> u32 {
        self.height
    }

    /// The screen shown after a tap at `(x, y)`.
    pub open spec fn tap_screen(self, x: u32, y: u32) -> Screen {
        match self.screen {
            Screen::Home => match spec_hit(self.spec_width(), x, y) {
                Some(slot) => Screen::App { index: (self.home_page * SLOTS_PER_PAGE + slot) as u32 },
                None => Screen::Home,
            },
            Screen::App { .. } => {
                if spec_back_zone().spec_contains(x as int, y as int)
                    || spec_home_indicator_zone(self.spec_width(), self.spec_height()).spec_contains(
                    x as int,
                    y as int,
                ) {
                    Screen::Home
                } else {
                    self.screen
                }
            },
        }
    }

    /// Whether a tap at `(x, y)` opens an app.
    pub open spec fn tap_opens_app(self, x: u32, y: u32) -> bool {
        self.screen is Home && spec_hit(self.spec_width(), x, y) is Some
    }

    /// The tap can be applied without overflowing a counter or an app index.
    pub open spec fn tap_ok(self, x: u32, y: u32) -> bool {
        &&& self.interactions < u64::MAX
        &&& self.tap_opens_app(x, y) ==> self.home_page * SLOTS_PER_PAGE + spec_hit(
            self.spec_width(),
            x,
            y,
        )->0 <= u32::MAX
    }

    /// Whether a swipe flips the home page.
    pub open spec fn swipe_flips_page(self, dx: int, dy: int) -> bool {
        self.screen is Home && abs(dx) > SWIPE_THRESHOLD && abs(dx) > abs(dy)
    }

    /// Whether a swipe scrolls the open app.
    pub open spec fn swipe_scrolls(self, dx: int, dy: int) -> bool {
        self.screen is App && abs(dy) > SWIPE_THRESHOLD && abs(dy) >= abs(dx)
    }

    /// The swipe can be applied without an `i32` overflow in the travel
    /// arithmetic, the page counter or the scroll offset.
    pub open spec fn swipe_ok(self, x1: u32, y1: u32, x2: u32, y2: u32) -> bool {
        let dx = travel(x1, x2);
        let dy = travel(y1, y2);
        &&& self.interactions < u64::MAX
        &&& i32::MIN < dx <= i32::MAX
        &&& i32::MIN < dy <= i32::MAX
        &&& (self.swipe_flips_page(dx, dy) && dx < 0) ==> self.home_page < u32::MAX
        &&& self.swipe_scrolls(dx, dy) ==> i32::MIN <= self.app_scroll - dy <= i32::MAX
    }

    /// Home page after a swipe with travel `(dx, dy)`.
    pub open spec fn swipe_page(self, dx: int, dy: int) -> u32 {
        if self.swipe_flips_page(dx, dy) {
            if dx < 0 {
                if self.home_page + 1 < HOME_PAGES - 1 {
                    (self.home_page + 1) as u32
                } else {
                    (HOME_PAGES - 1) as u32
                }
            } else if self.home_page > 0 {
                (self.home_page - 1) as u32
            } else {
                0
            }
        } else {
            self.home_page
        }
    }

    /// App scroll offset after a swipe with travel `(dx, dy)`.
    pub open spec fn swipe_scroll(self, dx: int, dy: int) -> i32 {
        if self.swipe_scrolls(dx, dy) {
            let v = self.app_scroll - dy;
            if v < 0 {
                0
            } else if v > APP_MAX_SCROLL {
                APP_MAX_SCROLL
            } else {
                v as i32
            }
        } else {
            self.app_scroll
        }
    }

    /// The input bookkeeping common to every gesture.
    pub open spec fn noted(
        self,
        next: DeviceState,
        kind: InputKind,
        x: u32,
        y: u32,
        now_us: u64,
    ) -> bool {
        &&& next.last_input_kind == kind
        &&& next.last_input_x == x
        &&& next.last_input_y == y
        &&& next.last_input_at_us == now_us
        &&& next.interactions == self.interactions + 1
        &&& next.spec_width() == self.spec_width()
        &&& next.spec_height() == self.spec_height()
    }

    /// A fresh device showing page 0 of the home screen.
    pub fn new(width: u32, height: u32) -> (s: Self)
        ensures
            s.screen == Screen::Home,
            s.home_page == 0,
            s.app_scroll == 0,
            s.last_input_kind == InputKind::NoInput,
            s.last_input_x == 0,
            s.last_input_y == 0,
            s.last_input_at_us == 0,
            s.interactions == 0,
            s.spec_width() == width,
            s.spec_height() == height,
    {
        DeviceState {
            screen: Screen::Home,
            home_page: 0,
            app_scroll: 0,
            last_input_kind: InputKind::NoInput,
            last_input_x: 0,
            last_input_y: 0,
            last_input_at_us: 0,
            interactions: 0,
            width,
            height,
        }
    }

    /// Copy of the renderer-visible fields.
    pub fn snapshot(&self) -> (s: StateSnapshot)
        ensures
            s.screen == self.screen,
            s.home_page == self.home_page,
            s.app_scroll == self.app_scroll,
            s.last_input_kind == self.last_input_kind,
            s.last_input_x == self.last_input_x,
            s.last_input_y == self.last_input_y,
            s.last_input_at_us == self.last_input_at_us,
            s.interactions == self.interactions,
    {
        StateSnapshot {
            screen: self.screen,
            home_page: self.home_page,
            app_scroll: self.app_scroll,
            last_input_kind: self.last_input_kind,
            last_input_x: self.last_input_x,
            last_input_y: self.last_input_y,
            last_input_at_us: self.last_input_at_us,
            interactions: self.interactions,
        }
    }

    fn note_input(&mut self, kind: InputKind, x: u32, y: u32, now_us: u64)
        requires
            old(self).interactions < u64::MAX,
        ensures
            old(self).noted(*final(self), kind, x, y, now_us),
            final(self).screen == old(self).screen,
            final(self).home_page == old(self).home_page,
            final(self).app_scroll == old(self).app_scroll,
    {
        self.last_input_kind = kind;
        self.last_input_x = x;
        self.last_input_y = y;
        self.last_input_at_us = now_us;
        self.interactions = self.interactions + 1;
    }
}

impl DeviceState {
    /// Whether a tap at `(x, y)` can be applied (see `tap_ok`).
    pub fn can_tap(&self, x: u32, y: u32) -> (b: bool)
        ensures
            b == self.tap_ok(x, y),
    {
        if self.interactions == u64::MAX {
            return false;
        }
        match self.screen {
            Screen::Home => match layout::hit_test_icon(self.width, x, y) {
                Some(slot) => {
                    proof {
                        let s2 = choose|s: u32|
                            s < SLOTS_PER_PAGE && #[trigger] slot_rect(self.width, s).spec_contains(
                                x as int,
                                y as int,
                            );
                        layout::lemma_slots_disjoint(self.width, slot, s2, x as int, y as int);
                    }
                    (self.home_page as u64) * (SLOTS_PER_PAGE as u64) + (slot as u64) <= u32::MAX as u64
                },
                None => true,
            },
            Screen::App { .. } => true,
        }
    }

    /// Whether a swipe from `(x1, y1)` to `(x2, y2)` can be applied (see
    /// `swipe_ok`).
    pub fn can_swipe(&self, x1: u32, y1: u32, x2: u32, y2: u32) -> (b: bool)
        ensures
            b == self.swipe_ok(x1, y1, x2, y2),
    {
        if self.interactions == u64::MAX {
            return false;
        }
        let dx: i64 = (x2 as i32) as i64 - (x1 as i32) as i64;
        let dy: i64 = (y2 as i32) as i64 - (y1 as i32) as i64;
        if dx <= i32::MIN as i64 || dx > i32::MAX as i64 || dy <= i32::MIN as i64 || dy > i32::MAX as i64 {
            return false;
        }
        let adx: i64 = if dx < 0 { -dx } else { dx };
        let ady: i64 = if dy < 0 { -dy } else { dy };
        match self.screen {
            Screen::Home => {
                if adx > SWIPE_THRESHOLD as i64 && adx > ady && dx < 0 {
                    self.home_page < u32::MAX
                } else {
                    true
                }
            },
            Screen::App { .. } => {
                if ady > SWIPE_THRESHOLD as i64 && ady >= adx {
                    let v: i64 = self.app_scroll as i64 - dy;
                    i32::MIN as i64 <= v && v <= i32::MAX as i64
                } else {
                    true
                }
            },
        }
    }
}

/// Apply a tap. On Home, tapping an icon opens its app; on an app view,
/// tapping the back chevron or home indicator returns home. Misses change no
/// screen but still count as an interaction.
pub fn apply_tap(st: &mut DeviceState, x: u32, y: u32, now_us: u64)
    requires
        old(st).tap_ok(x, y),
    ensures
        old(st).noted(*final(st), InputKind::Tap, x, y, now_us),
        final(st).screen == old(st).tap_screen(x, y),
        final(st).home_page == old(st).home_page,
        final(st).app_scroll == (if old(st).tap_opens_app(x, y) {
            0
        } else {
            old(st).app_scroll
        }),
{
    let ghost pre = *st;
    st.note_input(InputKind::Tap, x, y, now_us);
    match st.screen {
        Screen::Home => {
            match layout::hit_test_icon(st.width, x, y) {
                Some(slot) => {
                    proof {
                        let s2 = choose|s: u32|
                            s < SLOTS_PER_PAGE && #[trigger] slot_rect(pre.width, s).spec_contains(
                                x as int,
                                y as int,
                            );
                        layout::lemma_slots_disjoint(pre.width, slot, s2, x as int, y as int);
                    }
                    st.screen = Screen::App { index: layout::global_app_index(st.home_page, slot) };
                    st.app_scroll = 0;
                },
                None => {},
            }
        },
        Screen::App { .. } => {
            if layout::back_zone().contains(x, y) || layout::home_indicator_zone(
                st.width,
                st.height,
            ).contains(x, y) {
                st.screen = Screen::Home;
            }
        },
    }
}

/// Apply a swipe. Horizontal swipes flip home pages; vertical swipes scroll
/// an open app. Sub-threshold or wrong-axis swipes change nothing but the
/// input bookkeeping.
pub fn apply_swipe(st: &mut DeviceState, x1: u32, y1: u32, x2: u32, y2: u32, now_us: u64)
    requires
        old(st).swipe_ok(x1, y1, x2, y2),
    ensures
        old(st).noted(*final(st), InputKind::Swipe, x2, y2, now_us),
        final(st).screen == old(st).screen,
        final(st).home_page == old(st).swipe_page(travel(x1, x2), travel(y1, y2)),
        final(st).app_scroll == old(st).swipe_scroll(travel(x1, x2), travel(y1, y2)),
{
    st.note_input(InputKind::Swipe, x2, y2, now_us);
    let dx: i32 = x2 as i32 - x1 as i32;
    let dy: i32 = y2 as i32 - y1 as i32;
    let adx: i32 = if dx < 0 { -dx } else { dx };
    let ady: i32 = if dy < 0 { -dy } else { dy };
    match st.screen {
        Screen::Home => {
            if adx > SWIPE_THRESHOLD && adx > ady {
                if dx < 0 {
                    let next = st.home_page + 1;
                    st.home_page = if next < HOME_PAGES - 1 { next } else { HOME_PAGES - 1 };
                } else {
                    st.home_page = st.home_page.saturating_sub(1);
                }
            }
        },
        Screen::App { .. } => {
            if ady > SWIPE_THRESHOLD && ady >= adx {
                let v = st.app_scroll - dy;
                st.app_scroll = if v < 0 { 0 } else if v > APP_MAX_SCROLL { APP_MAX_SCROLL } else { v };
            }
        },
    }
}

/// Apply a long press. Purely visual: records the gesture so the renderer
/// can draw a brief highlight at the press point.
pub fn apply_long_press(st: &mut DeviceState, x: u32, y: u32, now_us: u64)
    requires
        old(st).interactions < u64::MAX,
    ensures
        old(st).noted(*final(st), InputKind::LongPress, x, y, now_us),
        final(st).screen == old(st).screen,
        final(st).home_page == old(st).home_page,
        final(st).app_scroll == old(st).app_scroll,
{
    st.note_input(InputKind::LongPress, x, y, now_us);
}

/// Every gesture keeps the home page in range and the app scroll within
/// `[0, APP_MAX_SCROLL]`.
pub proof fn lemma_swipe_keeps_ranges(st: DeviceState, x1: u32, y1: u32, x2: u32, y2: u32)
    requires
        st.home_page < HOME_PAGES,
        0 <= st.app_scroll <= APP_MAX_SCROLL,
    ensures
        st.swipe_page(travel(x1, x2), travel(y1, y2)) < HOME_PAGES,
        0 <= st.swipe_scroll(travel(x1, x2), travel(y1, y2)) <= APP_MAX_SCROLL,
{
}

} // verus!

//! Geometry of the synthetic home screen, shared by the renderer (which draws
//! the app grid) and the input handlers (which hit-test taps against it).
//!
//! Input coordinates are 1:1 with frame pixels, so hit-testing is direct:
//! a tap at the centre of a drawn icon always lands on that icon's slot.
use vstd::prelude::*;

verus! {

pub const STATUS_BAR_H: u32 = 44;
pub const ICON_SIZE: u32 = 60;
pub const ICON_PAD_X: u32 = 18;
pub const ICON_PAD_Y: u32 = 20;
pub const GRID_COLS: u32 = 4;
pub const GRID_ROWS: u32 = 6;
/// Top edge of the grid: the status bar plus a 40px band.
pub const GRID_TOP: u32 = 84;
/// The bitmap font advances 6px per glyph (5px glyph + 1px gap).
pub const GLYPH_ADVANCE: u32 = 6;
/// Icons per home page (`GRID_COLS * GRID_ROWS`).
pub const SLOTS_PER_PAGE: u32 = 24;
/// Width spanned by the grid: four icons and three gaps.
pub const TOTAL_GRID_W: u32 = 294;

/// An axis-aligned rectangle in frame-pixel space.
#[derive(Clone, Copy, Debug, PartialEq, Eq, Structural)]
pub struct IconRect {
    pub x: u32,
    pub y: u32,
    pub w: u32,
    pub h: u32,
}

impl IconRect {
    /// Half-open containment `[x, x+w) x [y, y+h)`, over the integers.
    pub open spec fn spec_contains(self, px: int, py: int) -> bool {
        self.x <= px < self.x + self.w && self.y <= py < self.y + self.h
    }

    /// The rectangle's far edges stay within `u32`.
    pub open spec fn fits(self) -> bool {
        self.x + self.w <= u32::MAX && self.y + self.h <= u32::MAX
    }

    /// Half-open containment: `[x, x+w) x [y, y+h)`.
    pub fn contains(&self, px: u32, py: u32) -> (r: bool)
        requires
            self.fits(),
        ensures
            r == self.spec_contains(px as int, py as int),
    {
        px >= self.x && px < self.x + self.w && py >= self.y && py < self.y + self.h
    }
}

/// Left edge of the centred grid: half the slack, or 0 on a device narrower
/// than the grid.
pub open spec fn spec_grid_left(w: u32) -> u32 {
    if w >= TOTAL_GRID_W {
        ((w - TOTAL_GRID_W) / 2) as u32
    } else {
        0
    }
}

/// Rectangle of the icon at `(row, col)`.
pub open spec fn spec_icon_rect(w: u32, row: u32, col: u32) -> IconRect {
    IconRect {
        x: (spec_grid_left(w) + col * (ICON_SIZE + ICON_PAD_X)) as u32,
        y: (GRID_TOP + row * (ICON_SIZE + ICON_PAD_Y)) as u32,
        w: ICON_SIZE,
        h: ICON_SIZE,
    }
}

/// Rectangle of the icon in grid slot `slot` (row-major).
pub open spec fn slot_rect(w: u32, slot: u32) -> IconRect {
    spec_icon_rect(w, slot / GRID_COLS, slot % GRID_COLS)
}

/// Back-chevron tap target in the app view's title bar: from the status bar
/// down to the top of the grid.
pub open spec fn spec_back_zone() -> IconRect {
    IconRect { x: 0, y: STATUS_BAR_H, w: 60, h: 40 }
}

/// Home-indicator tap target, centred at the bottom of the screen.
pub open spec fn spec_home_indicator_zone(w: u32, h: u32) -> IconRect {
    let bar_w: u32 = if w < 140 { w } else { 140 };
    IconRect {
        x: ((w - bar_w) / 2) as u32,
        y: if h >= 28 { (h - 28) as u32 } else { 0 },
        w: bar_w,
        h: 28,
    }
}

/// Left edge of the centred app grid. Saturates so a device narrower than the
/// grid never underflows.
pub fn grid_left(w: u32) -> (r: u32)
    ensures
        r == spec_grid_left(w),
        r <= w / 2,
{
    w.saturating_sub(TOTAL_GRID_W) / 2
}

/// Rectangle of the icon at `(row, col)` on the current page.
pub fn icon_rect(w: u32, row: u32, col: u32) -> (r: IconRect)
    requires
        row < GRID_ROWS,
        col < GRID_COLS,
    ensures
        r == spec_icon_rect(w, row, col),
        r.fits(),
{
    assert(col * 78 <= 234 && row * 80 <= 400) by (nonlinear_arith)
        requires
            col < 4,
            row < 6,
    ;
    IconRect {
        x: grid_left(w) + col * (ICON_SIZE + ICON_PAD_X),
        y: GRID_TOP + row * (ICON_SIZE + ICON_PAD_Y),
        w: ICON_SIZE,
        h: ICON_SIZE,
    }
}

/// Icons in distinct slots of one page never overlap.
pub proof fn lemma_slots_disjoint(w: u32, s1: u32, s2: u32, px: int, py: int)
    requires
        s1 < SLOTS_PER_PAGE,
        s2 < SLOTS_PER_PAGE,
        slot_rect(w, s1).spec_contains(px, py),
        slot_rect(w, s2).spec_contains(px, py),
    ensures
        s1 == s2,
{
}

/// Which grid slot (`0..SLOTS_PER_PAGE`) contains `(x, y)`, if any. Taps that
/// land in the inter-icon padding return `None`.
pub fn hit_test_icon(w: u32, x: u32, y: u32) -> (r: Option<u32>)
    ensures
        match r {
            Some(s) => s < SLOTS_PER_PAGE && slot_rect(w, s).spec_contains(x as int, y as int),
            None => forall|s: u32|
                s < SLOTS_PER_PAGE ==> !#[trigger] slot_rect(w, s).spec_contains(
                    x as int,
                    y as int,
                ),
        },
{
    let mut row: u32 = 0;
    while row < GRID_ROWS
        invariant
            row <= GRID_ROWS,
            forall|s: u32|
                s < row * GRID_COLS ==> !#[trigger] slot_rect(w, s).spec_contains(
                    x as int,
                    y as int,
                ),
        decreases GRID_ROWS - row,
    {
        let mut col: u32 = 0;
        while col < GRID_COLS
            invariant
                row < GRID_ROWS,
                col <= GRID_COLS,
                forall|s: u32|
                    s < row * GRID_COLS + col ==> !#[trigger] slot_rect(w, s).spec_contains(
                        x as int,
                        y as int,
                    ),
            decreases GRID_COLS - col,
        {
            let rect = icon_rect(w, row, col);
            assert(row * 4 + col < 24) by (nonlinear_arith)
                requires
                    row < 6,
                    col < 4,
            ;
            let slot = row * GRID_COLS + col;
            assert(slot / GRID_COLS == row && slot % GRID_COLS == col);
            if rect.contains(x, y) {
                assert(slot_rect(w, slot) == rect);
                return Some(slot);
            }
            assert forall|s: u32| s < row * GRID_COLS + col + 1 implies !#[trigger] slot_rect(
                w,
                s,
            ).spec_contains(x as int, y as int) by {
                if s == slot {
                    assert(slot_rect(w, s) == rect);
                }
            }
            col = col + 1;
        }
        row = row + 1;
    }
    None
}

/// Back-chevron tap target shown in the app-view title bar (top-left).
pub fn back_zone() -> (r: IconRect)
    ensures
        r == spec_back_zone(),
        r.fits(),
{
    IconRect { x: 0, y: STATUS_BAR_H, w: 60, h: GRID_TOP - STATUS_BAR_H }
}

/// Home-indicator tap target at the bottom centre of the app view.
pub fn home_indicator_zone(w: u32, h: u32) -> (r: IconRect)
    ensures
        r == spec_home_indicator_zone(w, h),
        r.fits(),
{
    let bar_w = if w < 140 { w } else { 140 };
    IconRect { x: w.saturating_sub(bar_w) / 2, y: h.saturating_sub(28), w: bar_w, h: 28 }
}

/// Map a page and slot to a stable global app index.
pub fn global_app_index(home_page: u32, slot: u32) -> (r: u32)
    requires
        home_page * SLOTS_PER_PAGE + slot <= u32::MAX,
    ensures
        r == home_page * SLOTS_PER_PAGE + slot,
{
    home_page * SLOTS_PER_PAGE + slot
}

/// Letter shown for an app index: `'A' + index % 26`.
pub open spec fn spec_app_letter(index: u32) -> char {
    (65 + index % 26) as char
}

/// Letter label for an app index. Wraps A-Z so any index is valid.
pub fn app_letter(index: u32) -> (c: char)
    ensures
        c == spec_app_letter(index),
        'A' <= c <= 'Z',
{
    let n: u8 = (index % 26) as u8;
    let b: u8 = 65u8 + n;
    b as char
}

/// Every index and its residue modulo 26 are labelled alike.
pub proof fn lemma_app_letter_periodic(index: u32)
    ensures
        spec_app_letter(index) == spec_app_letter(index % 26),
{
}

/// The centre of every drawn icon hits that icon's slot.
pub proof fn lemma_icon_centre_hits(w: u32, slot: u32)
    requires
        slot < SLOTS_PER_PAGE,
    ensures
        slot_rect(w, slot).spec_contains(
            slot_rect(w, slot).x + ICON_SIZE / 2,
            slot_rect(w, slot).y + ICON_SIZE / 2,
        ),
{
}

/// The back zone lies wholly above the grid, and the home indicator below it
/// on any screen taller than the grid plus its 28px band.
pub proof fn lemma_zones_outside_grid(w: u32, h: u32)
    requires
        h >= GRID_TOP + GRID_ROWS * (ICON_SIZE + ICON_PAD_Y) + 29,
    ensures
        spec_back_zone().y < GRID_TOP,
        spec_back_zone().y + spec_back_zone().h <= GRID_TOP,
        spec_home_indicator_zone(w, h).y > GRID_TOP + GRID_ROWS * (ICON_SIZE + ICON_PAD_Y),
{
}

/// No point lies both in the back zone and in an icon cell, on any screen
/// width.
pub proof fn lemma_back_zone_clear_of_icons(w: u32, row: u32, col: u32, px: int, py: int)
    requires
        row < GRID_ROWS,
        col < GRID_COLS,
    ensures
        !(spec_back_zone().spec_contains(px, py) && spec_icon_rect(w, row, col).spec_contains(px, py)),
{
    assert(GRID_TOP + row * (ICON_SIZE + ICON_PAD_Y) <= GRID_TOP + 5 * 80) by (nonlinear_arith)
        requires
            row < 6,
    ;
}

} // verus!

//! Colour schemes for the display window and overlays.
use vstd::prelude::*;

verus! {

/// A colour scheme.
#[derive(Clone, Debug)]
pub struct Theme {
    pub name: String,
    pub background: [u8; 3],
    pub foreground: [u8; 3],
    pub accent: [u8; 3],
    /// RGBA.
    pub overlay_bg: [u8; 4],
    pub overlay_text: [u8; 3],
    pub border: [u8; 3],
}

/// The Dark theme's name and colours.
pub open spec fn is_dark_theme(t: Theme) -> bool {
    &&& t.name@ == "Dark"@
    &&& t.background == [0x1Au8, 0x1Au8, 0x2Eu8]
    &&& t.foreground == [0xEEu8, 0xEEu8, 0xEEu8]
    &&& t.accent == [0x00u8, 0xD4u8, 0xFFu8]
    &&& t.overlay_bg == [0x00u8, 0x00u8, 0x00u8, 0x80u8]
    &&& t.overlay_text == [0x00u8, 0xD4u8, 0xFFu8]
    &&& t.border == [0x33u8, 0x33u8, 0x55u8]
}

/// The Light theme's name and colours.
pub open spec fn is_light_theme(t: Theme) -> bool {
    &&& t.name@ == "Light"@
    &&& t.background == [0xF5u8, 0xF5u8, 0xF5u8]
    &&& t.foreground == [0x22u8, 0x22u8, 0x22u8]
    &&& t.accent == [0x00u8, 0x7Au8, 0xFFu8]
    &&& t.overlay_bg == [0xFFu8, 0xFFu8, 0xFFu8, 0xC0u8]
    &&& t.overlay_text == [0x00u8, 0x7Au8, 0xFFu8]
    &&& t.border == [0xCCu8, 0xCCu8, 0xCCu8]
}

/// The Midnight theme's name and colours.
pub open spec fn is_midnight_theme(t: Theme) -> bool {
    &&& t.name@ == "Midnight"@
    &&& t.background == [0x0Au8, 0x0Au8, 0x1Au8]
    &&& t.foreground == [0xCCu8, 0xCCu8, 0xCCu8]
    &&& t.accent == [0xFFu8, 0x44u8, 0x88u8]
    &&& t.overlay_bg == [0x0Au8, 0x0Au8, 0x1Au8, 0xC0u8]
    &&& t.overlay_text == [0xFFu8, 0x44u8, 0x88u8]
    &&& t.border == [0x22u8, 0x22u8, 0x44u8]
}

/// The Nature theme's name and colours.
pub open spec fn is_nature_theme(t: Theme) -> bool {
    &&& t.name@ == "Nature"@
    &&& t.background == [0x1Au8, 0x2Eu8, 0x1Au8]
    &&& t.foreground == [0xDDu8, 0xEEu8, 0xDDu8]
    &&& t.accent == [0x44u8, 0xFFu8, 0x88u8]
    &&& t.overlay_bg == [0x1Au8, 0x2Eu8, 0x1Au8, 0xC0u8]
    &&& t.overlay_text == [0x44u8, 0xFFu8, 0x88u8]
    &&& t.border == [0x33u8, 0x55u8, 0x33u8]
}

impl Theme {
    pub fn dark() -> (t: Self)
        ensures
            is_dark_theme(t),
    {
        Theme {
            name: "Dark".to_string(),
            background: [0x1A, 0x1A, 0x2E],
            foreground: [0xEE, 0xEE, 0xEE],
            accent: [0x00, 0xD4, 0xFF],
            overlay_bg: [0x00, 0x00, 0x00, 0x80],
            overlay_text: [0x00, 0xD4, 0xFF],
            border: [0x33, 0x33, 0x55],
        }
    }

    pub fn light() -> (t: Self)
        ensures
            is_light_theme(t),
    {
        Theme {
            name: "Light".to_string(),
            background: [0xF5, 0xF5, 0xF5],
            foreground: [0x22, 0x22, 0x22],
            accent: [0x00, 0x7A, 0xFF],
            overlay_bg: [0xFF, 0xFF, 0xFF, 0xC0],
            overlay_text: [0x00, 0x7A, 0xFF],
            border: [0xCC, 0xCC, 0xCC],
        }
    }

    pub fn midnight() -> (t: Self)
        ensures
            is_midnight_theme(t),
    {
        Theme {
            name: "Midnight".to_string(),
            background: [0x0A, 0x0A, 0x1A],
            foreground: [0xCC, 0xCC, 0xCC],
            accent: [0xFF, 0x44, 0x88],
            overlay_bg: [0x0A, 0x0A, 0x1A, 0xC0],
            overlay_text: [0xFF, 0x44, 0x88],
            border: [0x22, 0x22, 0x44],
        }
    }

    pub fn nature() -> (t: Self)
        ensures
            is_nature_theme(t),
    {
        Theme {
            name: "Nature".to_string(),
            background: [0x1A, 0x2E, 0x1A],
            foreground: [0xDD, 0xEE, 0xDD],
            accent: [0x44, 0xFF, 0x88],
            overlay_bg: [0x1A, 0x2E, 0x1A, 0xC0],
            overlay_text: [0x44, 0xFF, 0x88],
            border: [0x33, 0x55, 0x33],
        }
    }

    /// The four built-in themes: Dark, Light, Midnight, Nature, each as its
    /// constructor makes it.
    pub fn all_themes() -> (v: Vec<Theme>)
        ensures
            v@.len() == 4,
            is_dark_theme(v@[0]),
            is_light_theme(v@[1]),
            is_midnight_theme(v@[2]),
            is_nature_theme(v@[3]),
    {
        let mut v = Vec::new();
        v.push(Self::dark());
        v.push(Self::light());
        v.push(Self::midnight());
        v.push(Self::nature());
        v
    }
}

/// Packed `0x00RRGGBB` value of a colour.
pub open spec fn packed_rgb(c: [u8; 3]) -> int {
    c[0] * 65536 + c[1] * 256 + c[2]
}

/// Background colour as `0x00RRGGBB`.
pub fn bg_color_u32(theme: &Theme) -> (v: u32)
    ensures
        v == packed_rgb(theme.background),
{
    let r = theme.background[0];
    let g = theme.background[1];
    let b = theme.background[2];
    let v = ((r as u32) << 16) | ((g as u32) << 8) | (b as u32);
    assert(((r as u32) << 16) | ((g as u32) << 8) | (b as u32) == (r as u32) * 65536 + (g as u32)
        * 256 + (b as u32)) by (bit_vector);
    v
}

} // verus!

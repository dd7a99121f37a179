//! Screensaver shown while no device is connected: a clock, the address to
//! connect to, or nothing, over a dark background.
use vstd::prelude::*;
use vstd::string::StringSliceAdditionalSpecFns;
use vstd::utf8::encode_utf8;
use crate::clock::{local_date_text, local_time_text};
use crate::text::{append_chars, chars_of, dec_digits, decimal, string_from_chars};

verus! {

/// What the screensaver shows.
#[derive(Clone, Debug)]
pub enum ScreensaverMode {
    Clock,
    ConnectionInfo { ip: String, port: u16 },
    Blank,
}

/// The screensaver: whether it is on and what it shows.
pub struct Screensaver {
    pub enabled: bool,
    pub mode: ScreensaverMode,
}

/// A line of block text: `n` glyphs of `gw` x `gh` pixels, `stride` pixels
/// apart, from `(x, y)`; with `holes`, every third pixel of every third row
/// is left out (the large clock font).
pub struct TextBlock {
    pub x: int,
    pub y: int,
    pub n: int,
    pub stride: int,
    pub gw: int,
    pub gh: int,
    pub holes: bool,
    pub color: [u8; 3],
}

/// Pixel `(px, py)` of a `w`-wide canvas belongs to block `b`.
pub open spec fn covers(b: TextBlock, w: int, px: int, py: int) -> bool {
    let dx = (px - b.x) % b.stride;
    let dy = py - b.y;
    &&& px < w
    &&& b.y <= py < b.y + b.gh
    &&& b.x <= px
    &&& (px - b.x) / b.stride < b.n
    &&& dx < b.gw
    &&& !(b.holes && dy % 3 == 0 && dx % 3 == 0)
}

/// The large clock font.
pub open spec fn large_text(x: int, y: int, n: int, color: [u8; 3]) -> TextBlock {
    TextBlock { x, y, n, stride: 20, gw: 16, gh: 24, holes: true, color }
}

/// The small font.
pub open spec fn small_text(x: int, y: int, n: int, color: [u8; 3]) -> TextBlock {
    TextBlock { x, y, n, stride: 7, gw: 5, gh: 7, holes: false, color }
}

/// Colour of pixel `(px, py)`: the block drawn last that covers it, else
/// the background's dark grey.
pub open spec fn pixel_color(w: int, first: Option<TextBlock>, second: Option<TextBlock>, px: int, py: int) -> [u8; 3] {
    match second {
        Some(b) if covers(b, w, px, py) => b.color,
        _ => match first {
            Some(b) if covers(b, w, px, py) => b.color,
            _ => [0x1Au8, 0x1Au8, 0x1Au8],
        },
    }
}

/// A `w` x `h` canvas of dark grey (`0x1A`, opaque) with block `first`,
/// then block `second`, drawn on it (colour bytes only).
pub open spec fn canvas(w: int, h: int, first: Option<TextBlock>, second: Option<TextBlock>) -> Seq<u8> {
    Seq::new(
        (w * h * 4) as nat,
        |k: int|
            if k % 4 == 3 {
                255u8
            } else {
                pixel_color(w, first, second, (k / 4) % w, (k / 4) / w)@[k % 4]
            },
    )
}

/// The clock's cyan.
pub open spec fn cyan() -> [u8; 3] {
    [0x00, 0xD4, 0xFF]
}

/// The text of the connection line.
pub open spec fn connection_text(ip: Seq<char>, port: u16) -> Seq<char> {
    "ios-remote: "@ + ip + seq![':'] + dec_digits(port as nat)
}

/// Bytes of the connection line (its ASCII parts and the address's UTF-8).
pub open spec fn connection_bytes(ip_bytes: int, port: u16) -> int {
    12 + ip_bytes + 1 + dec_digits(port as nat).len()
}

/// Block text of `n` glyphs drawn at `(x, y)` stays within 32-bit pixel
/// arithmetic, as the renderer computes it.
pub open spec fn block_fits(b: TextBlock, w: int) -> bool {
    b.n == 0 || (b.x + b.stride * (b.n - 1) + b.gw - 1 <= u32::MAX && b.y + b.gh - 1 <= u32::MAX && (b.x < w ==> ((
    b.y + b.gh - 1) * w + w - 1) * 4 <= u32::MAX))
}

/// The two blocks a mode draws on a `w` x `h` canvas, given the clock's time
/// and date texts (their byte lengths centre them, their characters are
/// drawn), and whether the layout fits: the centring subtractions do not
/// go below zero and the pixel arithmetic stays within 32 bits.
pub open spec fn layout(
    mode: ScreensaverMode,
    w: int,
    h: int,
    time: &str,
    date: &str,
) -> (Option<TextBlock>, Option<TextBlock>, bool) {
    match mode {
        ScreensaverMode::Clock => {
            let tb = time.spec_bytes().len() as int;
            let db = date.spec_bytes().len() as int;
            let cx = w / 2 - (tb * 20) / 2;
            let cy = h / 2 - 20;
            let dx = w / 2 - (db * 8) / 2;
            let first = large_text(cx, cy, time@.len() as int, cyan());
            let second = small_text(dx, cy + 50, date@.len() as int, [0x88, 0x88, 0x88]);
            (
                Some(first),
                Some(second),
                tb * 20 <= u32::MAX && db * 8 <= u32::MAX && cx >= 0 && cy >= 0 && dx >= 0 && cy + 50 <= u32::MAX
                    && block_fits(first, w) && block_fits(second, w),
            )
        },
        ScreensaverMode::ConnectionInfo { ip, port } => {
            let mb = connection_bytes(encode_utf8(ip@).len() as int, port);
            let cx = w / 2 - (mb * 8) / 2;
            let hx = w / 2 - 114;
            let first = small_text(cx, h / 2 - 20, connection_text(ip@, port).len() as int, cyan());
            let second = small_text(hx, h / 2 + 20, 38, [0x66, 0x66, 0x66]);
            (
                Some(first),
                Some(second),
                mb * 8 <= u32::MAX && cx >= 0 && hx >= 0 && h / 2 >= 20 && block_fits(first, w) && block_fits(second, w),
            )
        },
        ScreensaverMode::Blank => (None, None, true),
    }
}

/// The text blocks as `layout` describes them.
spec fn spec_of(b: Option<Block>) -> Option<TextBlock> {
    match b {
        Some(x) => Some(x.spec()),
        None => None,
    }
}

/// Colour of pixel `(px, py)`.
fn pixel_of(first: &Option<Block>, second: &Option<Block>, px: u32, py: u32, w: u32) -> (c: [u8; 3])
    requires
        first matches Some(b) ==> b.stride > 0,
        second matches Some(b) ==> b.stride > 0,
    ensures
        c == pixel_color(w as int, spec_of(*first), spec_of(*second), px as int, py as int),
{
    if let Some(b) = second {
        if b.covers(px, py, w) {
            return b.color;
        }
    }
    if let Some(b) = first {
        if b.covers(px, py, w) {
            return b.color;
        }
    }
    [0x1A, 0x1A, 0x1A]
}

/// A block of text as the renderer holds it.
struct Block {
    x: u32,
    y: u32,
    n: u32,
    stride: u32,
    gw: u32,
    gh: u32,
    holes: bool,
    color: [u8; 3],
}

impl Block {
    spec fn spec(&self) -> TextBlock {
        TextBlock {
            x: self.x as int,
            y: self.y as int,
            n: self.n as int,
            stride: self.stride as int,
            gw: self.gw as int,
            gh: self.gh as int,
            holes: self.holes,
            color: self.color,
        }
    }

    fn covers(&self, px: u32, py: u32, w: u32) -> (r: bool)
        requires
            self.stride > 0,
        ensures
            r == covers(self.spec(), w as int, px as int, py as int),
    {
        if px >= w || py < self.y || py - self.y >= self.gh || px < self.x {
            return false;
        }
        let off = px - self.x;
        let dx = off % self.stride;
        let dy = py - self.y;
        off / self.stride < self.n && dx < self.gw && !(self.holes && dy % 3 == 0 && dx % 3 == 0)
    }
}

impl Screensaver {
    /// On, showing the clock.
    pub fn new() -> (s: Self)
        ensures
            s.enabled,
            s.mode is Clock,
    {
        Screensaver { enabled: true, mode: ScreensaverMode::Clock }
    }

    /// The screensaver frame, `width` x `height` RGBA, with `time` and `date`
    /// as the clock shows them.
    pub fn render_at(&self, width: u32, height: u32, time: &str, date: &str) -> (rgba: Vec<u8>)
        requires
            width * height * 4 <= u32::MAX,
            layout(self.mode, width as int, height as int, time, date).2,
        ensures
            rgba@ == canvas(
                width as int,
                height as int,
                layout(self.mode, width as int, height as int, time, date).0,
                layout(self.mode, width as int, height as int, time, date).1,
            ),
    {
        let (first, second) = self.blocks(width, height, time, date);
        let ghost l = layout(self.mode, width as int, height as int, time, date);
        let ghost full = canvas(width as int, height as int, l.0, l.1);
        let mut rgba: Vec<u8> = Vec::new();
        let mut y: u32 = 0;
        while y < height
            invariant
                width * height * 4 <= u32::MAX,
                full == canvas(width as int, height as int, l.0, l.1),
                full.len() == width * height * 4,
                match (first, l.0) {
                    (Some(b), Some(t)) => b.spec() == t && b.stride > 0,
                    (None, None) => true,
                    _ => false,
                },
                match (second, l.1) {
                    (Some(b), Some(t)) => b.spec() == t && b.stride > 0,
                    (None, None) => true,
                    _ => false,
                },
                y <= height,
                rgba@ == full.subrange(0, y * width * 4),
            decreases height - y,
        {
            let mut x: u32 = 0;
            while x < width
                invariant
                    width * height * 4 <= u32::MAX,
                    full == canvas(width as int, height as int, l.0, l.1),
                    full.len() == width * height * 4,
                    match (first, l.0) {
                        (Some(b), Some(t)) => b.spec() == t && b.stride > 0,
                        (None, None) => true,
                        _ => false,
                    },
                    match (second, l.1) {
                        (Some(b), Some(t)) => b.spec() == t && b.stride > 0,
                        (None, None) => true,
                        _ => false,
                    },
                    y < height,
                    x <= width,
                    rgba@ == full.subrange(0, (y * width + x) * 4),
                decreases width - x,
            {
                let c = pixel_of(&first, &second, x, y, width);
                let ghost before = rgba@;
                rgba.push(c[0]);
                rgba.push(c[1]);
                rgba.push(c[2]);
                rgba.push(255);
                proof {
                    assert(spec_of(first) == l.0);
                    assert(spec_of(second) == l.1);
                    let base = (y * width + x) * 4;
                    assert(base + 4 <= width * height * 4) by (nonlinear_arith)
                        requires
                            y < height,
                            x < width,
                            base == (y * width + x) * 4,
                    ;
                    assert forall|ch: int| 0 <= ch < 4 implies #[trigger] full[base + ch] == (if ch < 3 {
                        c@[ch]
                    } else {
                        255u8
                    }) by {
                        crate::features::screen_rotation::lemma_byte_at(y as int, x as int, ch, width as int);
                    }
                    assert forall|k: int| 0 <= k < base + 4 implies #[trigger] rgba@[k] == full[k] by {
                        if k >= base {
                            assert(full[base + (k - base)] == rgba@[k]);
                        }
                    }
                    assert(rgba@ =~= full.subrange(0, base + 4));
                }
                x = x + 1;
            }
            proof {
                assert(y * width + width == (y + 1) * width) by (nonlinear_arith);
            }
            y = y + 1;
        }
        proof {
            assert(height * width == width * height) by (nonlinear_arith);
            assert(rgba@ =~= full);
        }
        rgba
    }

    /// The blocks of the current mode, as `layout` describes them.
    fn blocks(&self, width: u32, height: u32, time: &str, date: &str) -> (r: (Option<Block>, Option<Block>))
        requires
            layout(self.mode, width as int, height as int, time, date).2,
        ensures
            match (r.0, layout(self.mode, width as int, height as int, time, date).0) {
                (Some(b), Some(t)) => b.spec() == t && b.stride > 0,
                (None, None) => true,
                _ => false,
            },
            match (r.1, layout(self.mode, width as int, height as int, time, date).1) {
                (Some(b), Some(t)) => b.spec() == t && b.stride > 0,
                (None, None) => true,
                _ => false,
            },
    {
        match &self.mode {
            ScreensaverMode::Clock => {
                let tb = time.as_bytes().len() as u32;
                let db = date.as_bytes().len() as u32;
                let tn = chars_of(time).len() as u32;
                let dn = chars_of(date).len() as u32;
                let cx = width / 2 - (tb * 20) / 2;
                let cy = height / 2 - 20;
                let dx = width / 2 - (db * 8) / 2;
                (
                    Some(Block { x: cx, y: cy, n: tn, stride: 20, gw: 16, gh: 24, holes: true, color: [0x00, 0xD4, 0xFF] }),
                    Some(Block { x: dx, y: cy + 50, n: dn, stride: 7, gw: 5, gh: 7, holes: false, color: [0x88, 0x88, 0x88] }),
                )
            },
            ScreensaverMode::ConnectionInfo { ip, port } => {
                let digits = decimal(*port as u64);
                let mb = 12 + ip.as_str().as_bytes().len() as u32 + 1 + digits.len() as u32;
                let mn = 12 + chars_of(ip.as_str()).len() as u32 + 1 + digits.len() as u32;
                let cx = width / 2 - (mb * 8) / 2;
                let hx = width / 2 - 114;
                proof {
                    reveal_strlit("ios-remote: ");
                }
                (
                    Some(Block { x: cx, y: height / 2 - 20, n: mn, stride: 7, gw: 5, gh: 7, holes: false, color: [0x00, 0xD4, 0xFF] }),
                    Some(Block { x: hx, y: height / 2 + 20, n: 38, stride: 7, gw: 5, gh: 7, holes: false, color: [0x66, 0x66, 0x66] }),
                )
            },
            ScreensaverMode::Blank => (None, None),
        }
    }

    /// The screensaver frame now: the clock reads the local time. `None`
    /// when the mode's text does not fit the frame (or the frame is too
    /// large to address), where nothing sensible can be drawn.
    pub fn render(&self, width: u32, height: u32) -> (r: Option<Vec<u8>>)
        ensures
            r matches Some(px) ==> width * height * 4 <= u32::MAX && exists|time: &str, date: &str|
                layout(self.mode, width as int, height as int, time, date).2 && px@ == canvas(
                    width as int,
                    height as int,
                    layout(self.mode, width as int, height as int, time, date).0,
                    layout(self.mode, width as int, height as int, time, date).1,
                ),
            self.mode is Blank && width * height * 4 <= u32::MAX ==> (r matches Some(px) && px@ == canvas(
                width as int,
                height as int,
                None,
                None,
            )),
    {
        let time = local_time_text();
        let date = local_date_text();
        assert(width as int * height as int <= 0xFFFF_FFFF * 0xFFFF_FFFFint) by (nonlinear_arith)
            requires
                width <= 0xFFFF_FFFFu32,
                height <= 0xFFFF_FFFFu32,
        ;
        let wh: u128 = width as u128 * height as u128;
        if wh * 4 > u32::MAX as u128 {
            return None;
        }
        if !self.fits(width, height, time.as_str(), date.as_str()) {
            return None;
        }
        Some(self.render_at(width, height, time.as_str(), date.as_str()))
    }

    /// Whether the mode's layout fits a `width` x `height` frame.
    pub fn fits(&self, width: u32, height: u32, time: &str, date: &str) -> (b: bool)
        ensures
            b == layout(self.mode, width as int, height as int, time, date).2,
    {
        let w = width as u128;
        let h = height as u128;
        let lim = u32::MAX as u128;
        match &self.mode {
            ScreensaverMode::Clock => {
                let tb = time.as_bytes().len() as u128;
                let db = date.as_bytes().len() as u128;
                let tn = chars_of(time).len() as u128;
                let dn = chars_of(date).len() as u128;
                if tb * 20 > lim || db * 8 > lim || (tb * 20) / 2 > w / 2 || h / 2 < 20 || (db * 8) / 2 > w / 2 {
                    return false;
                }
                let cx = w / 2 - (tb * 20) / 2;
                let cy = h / 2 - 20;
                let dx = w / 2 - (db * 8) / 2;
                cy + 50 <= lim && block_ok(cx, cy, tn, 20, 16, 24, w) && block_ok(dx, cy + 50, dn, 7, 5, 7, w)
            },
            ScreensaverMode::ConnectionInfo { ip, port } => {
                let digits = decimal(*port as u64);
                let mb = 12 + ip.as_str().as_bytes().len() as u128 + 1 + digits.len() as u128;
                let mn = 12 + chars_of(ip.as_str()).len() as u128 + 1 + digits.len() as u128;
                proof {
                    reveal_strlit("ios-remote: ");
                }
                if mb * 8 > lim || (mb * 8) / 2 > w / 2 || w / 2 < 114 || h / 2 < 20 {
                    return false;
                }
                let cx = w / 2 - (mb * 8) / 2;
                let hx = w / 2 - 114;
                block_ok(cx, h / 2 - 20, mn, 7, 5, 7, w) && block_ok(hx, h / 2 + 20, 38, 7, 5, 7, w)
            },
            ScreensaverMode::Blank => true,
        }
    }
}

/// Whether block text stays within 32-bit pixel arithmetic.
fn block_ok(x: u128, y: u128, n: u128, stride: u128, gw: u128, gh: u128, w: u128) -> (b: bool)
    requires
        x <= u32::MAX,
        y <= 2 * u32::MAX,
        n <= 0x4_0000_0000_0000_0000u128,
        stride <= 20,
        1 <= gw <= 16,
        1 <= gh <= 24,
        w <= u32::MAX,
    ensures
        b == block_fits(
            TextBlock {
                x: x as int,
                y: y as int,
                n: n as int,
                stride: stride as int,
                gw: gw as int,
                gh: gh as int,
                holes: false,
                color: [0, 0, 0],
            },
            w as int,
        ),
{
    let lim = u32::MAX as u128;
    if n == 0 {
        return true;
    }
    assert(stride * (n - 1) <= 20 * 0x4_0000_0000_0000_0000int) by (nonlinear_arith)
        requires
            stride <= 20,
            1 <= n <= 0x4_0000_0000_0000_0000u128,
    ;
    if x + stride * (n - 1) + gw - 1 > lim || y + gh - 1 > lim {
        return false;
    }
    if x < w {
        proof {
            assert((y + gh - 1) * w <= lim * lim) by (nonlinear_arith)
                requires
                    y + gh - 1 <= lim,
                    w <= lim,
            ;
        }
        ((y + gh - 1) * w + w - 1) * 4 <= lim
    } else {
        true
    }
}

} // verus!

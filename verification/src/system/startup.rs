//! The battery widget shown in the tray tooltip.
use vstd::prelude::*;
use crate::text::{append_chars, dec_digits, decimal, string_from_chars};

verus! {

/// The iPhone's battery as last reported.
pub struct BatteryWidget {
    pub level: u8,
    pub charging: bool,
}

/// The tooltip text: a bolt while charging, a battery otherwise, then the
/// level in percent.
pub open spec fn battery_tooltip(level: u8, charging: bool) -> Seq<char> {
    "iPhone "@ + (if charging { "\u{26A1}"@ } else { "\u{1F50B}"@ }) + seq![' '] + dec_digits(level as nat) + seq!['%']
}

impl BatteryWidget {
    /// Empty and not charging.
    pub fn new() -> (b: Self)
        ensures
            b.level == 0,
            !b.charging,
    {
        BatteryWidget { level: 0, charging: false }
    }

    /// Record a new reading.
    pub fn update(&mut self, level: u8, charging: bool)
        ensures
            final(self).level == level,
            final(self).charging == charging,
    {
        self.level = level;
        self.charging = charging;
    }

    /// The tooltip text, e.g. `iPhone 🔋 85%`.
    pub fn tooltip(&self) -> (s: String)
        ensures
            s@ == battery_tooltip(self.level, self.charging),
    {
        let mut out: Vec<char> = Vec::new();
        append_chars(&mut out, "iPhone ");
        if self.charging {
            append_chars(&mut out, "\u{26A1}");
        } else {
            append_chars(&mut out, "\u{1F50B}");
        }
        out.push(' ');
        let d = decimal(self.level as u64);
        let ghost start = out@;
        let mut i: usize = 0;
        while i < d.len()
            invariant
                i <= d@.len(),
                out@ == start + d@.subrange(0, i as int),
            decreases d@.len() - i,
        {
            out.push(d[i]);
            proof {
                assert(out@ =~= start + d@.subrange(0, i + 1));
            }
            i = i + 1;
        }
        out.push('%');
        proof {
            assert(d@.subrange(0, d@.len() as int) =~= d@);
            assert(out@ =~= battery_tooltip(self.level, self.charging));
        }
        string_from_chars(&out)
    }
}

} // verus!

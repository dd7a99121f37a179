//! The rotating subtitle lines of synthetic mode, one every five seconds.
use vstd::prelude::*;

verus! {

/// Seconds between two subtitle lines.
pub const SUBTITLE_PERIOD_SECS: u64 = 5;

/// The subtitle lines, in the order they rotate.
pub open spec fn subtitle_lines() -> Seq<Seq<char>> {
    seq![
        "WELCOME TO IOS REMOTE SYNTHETIC MODE"@,
        "NO IPHONE REQUIRED FOR THIS DEMO"@,
        "RECORDING AND REPLAY ARE FULLY WIRED"@,
        "TRY HOTKEY S TO SAVE A SCREENSHOT"@,
        "TRY HOTKEY F2 TO START RECORDING"@,
        "DASHBOARD AT HTTP LOCALHOST 8080"@,
    ]
}

/// The line pushed on tick `tick` (counting from zero): the lines in turn,
/// starting over after the last.
pub fn subtitle_line(tick: u64) -> (s: &'static str)
    ensures
        s@ == subtitle_lines()[(tick % 6) as int],
{
    let i = tick % 6;
    if i == 0 {
        "WELCOME TO IOS REMOTE SYNTHETIC MODE"
    } else if i == 1 {
        "NO IPHONE REQUIRED FOR THIS DEMO"
    } else if i == 2 {
        "RECORDING AND REPLAY ARE FULLY WIRED"
    } else if i == 3 {
        "TRY HOTKEY S TO SAVE A SCREENSHOT"
    } else if i == 4 {
        "TRY HOTKEY F2 TO START RECORDING"
    } else {
        "DASHBOARD AT HTTP LOCALHOST 8080"
    }
}

} // verus!

//! USB connection to an iPhone through usbmuxd: device choice and the
//! reconnect policy of the receiver.
pub mod device;
pub mod lockdown;
pub mod property_list;
pub mod screen_capture;
pub mod usbmuxd;

use vstd::prelude::*;
use crate::text::str_eq;
use crate::usb::lockdown::{parse_ios_major, spec_parse_ios_major, DeviceInfo};
use crate::usb::usbmuxd::UsbDevice;

verus! {

/// Why no device could be chosen.
#[derive(Clone, Copy, Debug, PartialEq, Eq, Structural)]
pub enum PickError {
    /// The requested UDID is not among the attached devices.
    NotConnected,
    /// No device is attached.
    NoDevice,
}

/// Choose the device to stream from: the first one with the requested UDID
/// when one is requested, otherwise the first attached device.
pub fn pick_device(devices: &[UsbDevice], preferred: &Option<String>) -> (r: Result<usize, PickError>)
    ensures
        match (*preferred, r) {
            (Some(want), Ok(i)) => i < devices@.len() && devices@[i as int].udid@ == want@ && forall|j: int|
                0 <= j < i ==> #[trigger] devices@[j].udid@ != want@,
            (Some(want), Err(e)) => e == PickError::NotConnected && forall|j: int|
                0 <= j < devices@.len() ==> #[trigger] devices@[j].udid@ != want@,
            (None, Ok(i)) => i == 0 && devices@.len() > 0,
            (None, Err(e)) => e == PickError::NoDevice && devices@.len() == 0,
        },
{
    match preferred {
        Some(want) => {
            let mut i: usize = 0;
            while i < devices.len()
                invariant
                    *preferred == Some(*want),
                    i <= devices@.len(),
                    forall|j: int| 0 <= j < i ==> #[trigger] devices@[j].udid@ != want@,
                decreases devices@.len() - i,
            {
                if str_eq(devices[i].udid.as_str(), want.as_str()) {
                    return Ok(i);
                }
                i = i + 1;
            }
            Err(PickError::NotConnected)
        },
        None => {
            if devices.len() > 0 {
                Ok(0)
            } else {
                Err(PickError::NoDevice)
            }
        },
    }
}

/// Longest wait between reconnect attempts, in seconds.
pub const MAX_BACKOFF_SECS: u64 = 16;

/// Seconds without a device after which a "still waiting" warning is due.
pub const STALL_WARN_US: u64 = 30_000_000;

/// Reconnect policy of the USB receiver: exponential backoff from one
/// second, capped at `MAX_BACKOFF_SECS`.
pub struct Reconnect {
    pub backoff_secs: u64,
}

impl Reconnect {
    /// Well-formed: the backoff lies between one second and the cap.
    pub open spec fn wf(self) -> bool {
        1 <= self.backoff_secs <= MAX_BACKOFF_SECS
    }

    /// Start with a one-second backoff.
    pub fn new() -> (r: Self)
        ensures
            r.backoff_secs == 1,
            r.wf(),
    {
        Reconnect { backoff_secs: 1 }
    }

    /// A session has ended, cleanly (the device went away) or with an error.
    /// A clean end resets the backoff to one second. Returns how long to
    /// wait before the next attempt; the backoff then doubles, up to the cap.
    pub fn after_session(&mut self, clean: bool) -> (wait_secs: u64)
        requires
            old(self).wf(),
        ensures
            wait_secs == (if clean { 1 } else { old(self).backoff_secs }),
            final(self).backoff_secs == (if 2 * wait_secs < MAX_BACKOFF_SECS { 2 * wait_secs } else { MAX_BACKOFF_SECS as int }),
            final(self).wf(),
    {
        if clean {
            self.backoff_secs = 1;
        }
        let wait = self.backoff_secs;
        let doubled = wait * 2;
        self.backoff_secs = if doubled < MAX_BACKOFF_SECS { doubled } else { MAX_BACKOFF_SECS };
        wait
    }
}

/// Which "still waiting" warning to give.
#[derive(Clone, Copy, Debug, PartialEq, Eq, Structural)]
pub enum StallWarning {
    /// The last device seen runs iOS 17 or later, which this build cannot
    /// capture.
    UnsupportedIos,
    /// A device was seen before; show it with the checklist.
    LastSeen,
    /// No device was ever seen; show the checklist.
    NeverSeen,
}

/// The warning for a receiver that has waited too long, from the last
/// device it identified.
pub fn stall_warning(last: Option<&DeviceInfo>) -> (w: StallWarning)
    ensures
        w == (match last {
            Some(d) => match spec_parse_ios_major(d.ios_version@) {
                Some(m) if m >= 17 => StallWarning::UnsupportedIos,
                _ => StallWarning::LastSeen,
            },
            None => StallWarning::NeverSeen,
        }),
{
    match last {
        Some(d) => match parse_ios_major(d.ios_version.as_str()) {
            Some(m) => {
                if m >= 17 {
                    StallWarning::UnsupportedIos
                } else {
                    StallWarning::LastSeen
                }
            },
            None => StallWarning::LastSeen,
        },
        None => StallWarning::NeverSeen,
    }
}

/// Whether a "still waiting" warning is due at `now_us`, and the new mark.
/// The first failure only sets the mark; once more than `STALL_WARN_US` has
/// passed since the mark, the warning is due and the mark moves to now.
pub fn stall_check(mark_us: Option<u64>, now_us: u64) -> (r: (bool, Option<u64>))
    ensures
        r == (match mark_us {
            None => (false, Some(now_us)),
            Some(t) => if now_us > t && now_us - t > STALL_WARN_US {
                (true, Some(now_us))
            } else {
                (false, Some(t))
            },
        }),
{
    match mark_us {
        None => (false, Some(now_us)),
        Some(t) => {
            if now_us > t && now_us - t > STALL_WARN_US {
                (true, Some(now_us))
            } else {
                (false, Some(t))
            }
        },
    }
}

} // verus!

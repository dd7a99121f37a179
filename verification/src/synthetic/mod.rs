//! Synthetic device mode: a rendered mock iPhone that reacts to input, so the
//! pipeline runs without a physical device.
use vstd::prelude::*;

pub mod layout;
pub mod renderer;
pub mod state;
pub mod subtitle_pump;

verus! {

/// The stable fake identity reported in synthetic mode.
#[derive(Debug, Clone)]
pub struct SyntheticDeviceInfo {
    pub name: String,
    pub model: String,
    pub ios_version: String,
    pub udid: String,
    pub width: u32,
    pub height: u32,
}

impl SyntheticDeviceInfo {
    /// An iPhone 15 (390 x 844 points).
    pub fn default_iphone_15() -> (info: Self)
        ensures
            info.name@ == "Synthetic iPhone"@,
            info.model@ == "iPhone15,2"@,
            info.ios_version@ == "17.5"@,
            info.udid@ == "SYNTHETIC-00000000-000000000000000"@,
            info.width == 390,
            info.height == 844,
    {
        SyntheticDeviceInfo {
            name: "Synthetic iPhone".to_string(),
            model: "iPhone15,2".to_string(),
            ios_version: "17.5".to_string(),
            udid: "SYNTHETIC-00000000-000000000000000".to_string(),
            width: 390,
            height: 844,
        }
    }
}

} // verus!

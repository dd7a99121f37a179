//! System tray icon state.
use vstd::prelude::*;

verus! {

/// The tray icon: whether it is shown. Tooltips and balloon notifications
/// only appear while it is.
pub struct TrayIcon {
    visible: bool,
}

impl TrayIcon {
    /// Whether the icon is shown.
    pub closed spec fn spec_visible(&self) -> bool {
        self.visible
    }

    /// A hidden icon.
    pub fn new() -> (t: Self)
        ensures
            !t.spec_visible(),
    {
        TrayIcon { visible: false }
    }

    /// Show the icon.
    pub fn show(&mut self)
        ensures
            final(self).spec_visible(),
    {
        self.visible = true;
    }

    /// Hide the icon.
    pub fn hide_icon(&mut self)
        ensures
            !final(self).spec_visible(),
    {
        self.visible = false;
    }

    /// Whether the icon is shown.
    pub fn is_visible(&self) -> (b: bool)
        ensures
            b == self.spec_visible(),
    {
        self.visible
    }

    /// Update the tooltip with `status`; it shows only while the icon does.
    /// Returns whether it was shown.
    pub fn update_tooltip(&self, status: &str) -> (shown: bool)
        ensures
            shown == self.spec_visible(),
    {
        self.visible
    }

    /// Show a balloon notification; it shows only while the icon does.
    /// Returns whether it was shown.
    pub fn notify(&self, title: &str, message: &str) -> (shown: bool)
        ensures
            shown == self.spec_visible(),
    {
        self.visible
    }
}

} // verus!

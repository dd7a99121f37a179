//! Elgato Stream Deck integration: map buttons to command-palette actions.
use vstd::prelude::*;

verus! {

/// One button of the layout.
#[derive(Clone, Debug)]
pub struct StreamDeckButton {
    pub position: u8,
    /// Command palette command id.
    pub action: String,
    pub label: String,
    /// Base64 PNG.
    pub icon: Option<String>,
}

/// The button layout and whether a device is attached.
pub struct StreamDeckIntegration {
    buttons: Vec<StreamDeckButton>,
    connected: bool,
}

/// The eight-button default layout: screenshot, record start/stop, OCR,
/// GIF, PiP, game mode and AI describe at positions 0-7.
pub open spec fn is_default_layout(v: Seq<StreamDeckButton>) -> bool {
    &&& v.len() == 8
    &&& v[0].position == 0 && v[0].action@ == "screenshot"@ && v[0].label@ == "Screenshot"@ && v[0].icon is None
    &&& v[1].position == 1 && v[1].action@ == "record_start"@ && v[1].label@ == "Record"@ && v[1].icon is None
    &&& v[2].position == 2 && v[2].action@ == "record_stop"@ && v[2].label@ == "Stop"@ && v[2].icon is None
    &&& v[3].position == 3 && v[3].action@ == "ocr"@ && v[3].label@ == "OCR"@ && v[3].icon is None
    &&& v[4].position == 4 && v[4].action@ == "gif_save"@ && v[4].label@ == "GIF"@ && v[4].icon is None
    &&& v[5].position == 5 && v[5].action@ == "pip_toggle"@ && v[5].label@ == "PiP"@ && v[5].icon is None
    &&& v[6].position == 6 && v[6].action@ == "game_mode"@ && v[6].label@ == "Game"@ && v[6].icon is None
    &&& v[7].position == 7 && v[7].action@ == "ai_describe"@ && v[7].label@ == "AI"@ && v[7].icon is None
}

fn button(position: u8, action: &str, label: &str) -> (b: StreamDeckButton)
    ensures
        b.position == position,
        b.action@ == action@,
        b.label@ == label@,
        b.icon is None,
{
    StreamDeckButton { position, action: action.to_string(), label: label.to_string(), icon: None }
}

impl StreamDeckIntegration {
    /// The buttons, in layout order.
    pub closed spec fn spec_buttons(&self) -> Seq<StreamDeckButton> {
        self.buttons@
    }

    /// Whether a device is attached.
    pub closed spec fn spec_connected(&self) -> bool {
        self.connected
    }

    /// The default layout, not connected.
    pub fn new() -> (s: Self)
        ensures
            is_default_layout(s.spec_buttons()),
            !s.spec_connected(),
    {
        let buttons = Self::default_layout();
        StreamDeckIntegration { buttons, connected: false }
    }

    fn default_layout() -> (v: Vec<StreamDeckButton>)
        ensures
            is_default_layout(v@),
    {
        let mut v = Vec::new();
        v.push(button(0, "screenshot", "Screenshot"));
        v.push(button(1, "record_start", "Record"));
        v.push(button(2, "record_stop", "Stop"));
        v.push(button(3, "ocr", "OCR"));
        v.push(button(4, "gif_save", "GIF"));
        v.push(button(5, "pip_toggle", "PiP"));
        v.push(button(6, "game_mode", "Game"));
        v.push(button(7, "ai_describe", "AI"));
        v
    }

    /// The buttons, in layout order.
    pub fn buttons(&self) -> (r: &[StreamDeckButton])
        ensures
            r@ == self.spec_buttons(),
    {
        self.buttons.as_slice()
    }

    /// Replace the layout, as a saved layout is loaded.
    pub fn set_buttons(&mut self, buttons: Vec<StreamDeckButton>)
        ensures
            final(self).spec_buttons() == buttons@,
            final(self).spec_connected() == old(self).spec_connected(),
    {
        self.buttons = buttons;
    }

    /// Whether a device is attached.
    pub fn is_connected(&self) -> (r: bool)
        ensures
            r == self.spec_connected(),
    {
        self.connected
    }

    /// The action of the first button at `position`, if any.
    pub fn on_press(&self, position: u8) -> (r: Option<&str>)
        ensures
            match r {
                Some(a) => exists|i: int|
                    0 <= i < self.spec_buttons().len() && self.spec_buttons()[i].position == position
                        && a@ == self.spec_buttons()[i].action@ && forall|j: int|
                        0 <= j < i ==> #[trigger] self.spec_buttons()[j].position != position,
                None => forall|j: int|
                    0 <= j < self.spec_buttons().len() ==> #[trigger] self.spec_buttons()[j].position
                        != position,
            },
    {
        let mut i: usize = 0;
        while i < self.buttons.len()
            invariant
                i <= self.buttons@.len(),
                forall|j: int| 0 <= j < i ==> #[trigger] self.buttons@[j].position != position,
            decreases self.buttons@.len() - i,
        {
            if self.buttons[i].position == position {
                return Some(self.buttons[i].action.as_str());
            }
            i = i + 1;
        }
        None
    }
}

/// Open the first attached Stream Deck. Built without HID support, so this
/// always reports that the feature is off; callers treat it as a soft fail.
pub fn try_open_device() -> (r: Result<(), String>)
    ensures
        r matches Err(e) && e@ == "stream_deck feature not enabled (build with --features stream_deck)"@,
{
    Err("stream_deck feature not enabled (build with --features stream_deck)".to_string())
}

} // verus!

pub mod cli;
pub mod clock;
pub mod features;
pub mod idevice;
pub mod text;
pub mod usb;
pub mod synthetic;
pub mod system;
pub mod ui;

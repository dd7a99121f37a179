//! Features built on the mirrored stream.
pub mod frame;
pub mod nal;
pub mod qr_scanner;
pub mod recording;
pub mod scheduler;
pub mod screen_diff;
pub mod screen_rotation;
pub mod screensaver;
pub mod screenshot;
pub mod session_replay;
pub mod sharing;
pub mod smart_crop;
pub mod smart_recording;
pub mod stats_export;
pub mod stats_overlay;
pub mod stream_deck;
pub mod template_match;
pub mod themes;
pub mod translation;
pub mod voice_command;
pub mod watermark;
pub mod wda_client;
pub mod webhook;

pub use frame::Frame;

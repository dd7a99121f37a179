//! Device services reached over USB (file transfer, syslog). They are not
//! enabled in this build: every request reports so.
pub mod file_transfer;
pub mod syslog;

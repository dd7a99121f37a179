//! The device's system log.
use vstd::prelude::*;

verus! {

/// Severity of a log entry.
#[derive(Clone, Copy, Debug, PartialEq, Eq, Structural)]
pub enum LogLevel {
    Default,
    Info,
    Debug,
    Error,
    Fault,
}

/// One entry of the device's system log.
#[derive(Clone, Debug)]
pub struct SyslogEntry {
    pub timestamp: String,
    pub process: String,
    pub pid: u32,
    pub message: String,
    pub level: LogLevel,
}

/// Start relaying the device's system log. The relay service is not
/// enabled in this build, so this always reports so.
pub fn stream_syslog() -> (r: Result<(), String>)
    ensures
        r matches Err(e) && e@ == "idevice syslog relay not yet enabled"@,
{
    Err("idevice syslog relay not yet enabled".to_string())
}

/// Fetch the device's crash logs. Not enabled in this build.
pub fn get_crash_logs() -> (r: Result<Vec<String>, String>)
    ensures
        r matches Err(e) && e@ == "idevice crash log retrieval not yet enabled"@,
{
    Err("idevice crash log retrieval not yet enabled".to_string())
}

} // verus!

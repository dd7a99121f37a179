//! File transfer with the device's AFC service.
use vstd::prelude::*;

verus! {

/// A file or directory on the device.
#[derive(Clone, Debug)]
pub struct FileEntry {
    pub path: String,
    pub name: String,
    pub is_dir: bool,
    pub size: u64,
}

/// List the files of an AFC-accessible directory. AFC is not enabled in
/// this build, so this always reports so.
pub fn list_files(path: &str) -> (r: Result<Vec<FileEntry>, String>)
    ensures
        r matches Err(e) && e@ == "idevice AFC not yet enabled"@,
{
    Err("idevice AFC not yet enabled".to_string())
}

/// Copy a file from the device. Not enabled in this build.
pub fn download_file(remote_path: &str, local_path: &str) -> (r: Result<(), String>)
    ensures
        r matches Err(e) && e@ == "idevice AFC not yet enabled"@,
{
    Err("idevice AFC not yet enabled".to_string())
}

/// Copy a file to the device. Not enabled in this build.
pub fn upload_file(local_path: &str, remote_path: &str) -> (r: Result<(), String>)
    ensures
        r matches Err(e) && e@ == "idevice AFC not yet enabled"@,
{
    Err("idevice AFC not yet enabled".to_string())
}

} // verus!

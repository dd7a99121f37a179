//! Windows installer script (NSIS) for this version.
use vstd::prelude::*;
use crate::text::{append_chars, string_from_chars};

verus! {

/// Version written into the installer.
pub const VERSION: &'static str = "0.8.0";

/// Script text up to the product name.
pub const NSIS_BEFORE_NAME: &'static str = "\n!include \"MUI2.nsh\"\n\nName \"ios-remote ";

/// Script text between the name and the setup file name.
pub const NSIS_BEFORE_OUTFILE: &'static str = "\"\nOutFile \"ios-remote-";

/// Script text between the setup file name and the registered version.
pub const NSIS_BEFORE_DISPLAY_VERSION: &'static str = "-setup.exe\"\nInstallDir \"$PROGRAMFILES64\\ios-remote\"\nRequestExecutionLevel admin\n\n!insertmacro MUI_PAGE_WELCOME\n!insertmacro MUI_PAGE_DIRECTORY\n!insertmacro MUI_PAGE_INSTFILES\n!insertmacro MUI_PAGE_FINISH\n!insertmacro MUI_LANGUAGE \"English\"\n!insertmacro MUI_LANGUAGE \"Japanese\"\n\nSection \"Install\"\n    SetOutPath \"$INSTDIR\"\n    File \"target\\release\\ios-remote.exe\"\n    File \"README.md\"\n\n    ; Create Start Menu shortcut\n    CreateDirectory \"$SMPROGRAMS\\ios-remote\"\n    CreateShortCut \"$SMPROGRAMS\\ios-remote\\ios-remote.lnk\" \"$INSTDIR\\ios-remote.exe\"\n    CreateShortCut \"$SMPROGRAMS\\ios-remote\\Uninstall.lnk\" \"$INSTDIR\\uninstall.exe\"\n\n    ; Create Desktop shortcut\n    CreateShortCut \"$DESKTOP\\ios-remote.lnk\" \"$INSTDIR\\ios-remote.exe\"\n\n    ; Firewall rules\n    nsExec::Exec 'netsh advfirewall firewall add rule name=\"ios-remote\" dir=in action=allow program=\"$INSTDIR\\ios-remote.exe\"'\n\n    ; Write uninstaller\n    WriteUninstaller \"$INSTDIR\\uninstall.exe\"\n\n    ; Registry for Add/Remove Programs\n    WriteRegStr HKLM \"Software\\Microsoft\\Windows\\CurrentVersion\\Uninstall\\ios-remote\" \"DisplayName\" \"ios-remote\"\n    WriteRegStr HKLM \"Software\\Microsoft\\Windows\\CurrentVersion\\Uninstall\\ios-remote\" \"UninstallString\" \"$INSTDIR\\uninstall.exe\"\n    WriteRegStr HKLM \"Software\\Microsoft\\Windows\\CurrentVersion\\Uninstall\\ios-remote\" \"DisplayVersion\" \"";

/// Script text after the registered version.
pub const NSIS_AFTER_DISPLAY_VERSION: &'static str = "\"\nSectionEnd\n\nSection \"Uninstall\"\n    Delete \"$INSTDIR\\ios-remote.exe\"\n    Delete \"$INSTDIR\\README.md\"\n    Delete \"$INSTDIR\\uninstall.exe\"\n    RMDir \"$INSTDIR\"\n    Delete \"$SMPROGRAMS\\ios-remote\\*.*\"\n    RMDir \"$SMPROGRAMS\\ios-remote\"\n    Delete \"$DESKTOP\\ios-remote.lnk\"\n    nsExec::Exec 'netsh advfirewall firewall delete rule name=\"ios-remote\"'\n    DeleteRegKey HKLM \"Software\\Microsoft\\Windows\\CurrentVersion\\Uninstall\\ios-remote\"\nSectionEnd\n";

/// The NSIS script that installs version `v`.
pub open spec fn nsis_script(v: Seq<char>) -> Seq<char> {
    NSIS_BEFORE_NAME@ + v + NSIS_BEFORE_OUTFILE@ + v + NSIS_BEFORE_DISPLAY_VERSION@ + v + NSIS_AFTER_DISPLAY_VERSION@
}

/// The NSIS script for this version; `makensis` turns it into a setup
/// program.
pub fn generate_nsis_script() -> (s: String)
    ensures
        s@ == nsis_script(VERSION@),
{
    let mut out: Vec<char> = Vec::new();
    append_chars(&mut out, NSIS_BEFORE_NAME);
    append_chars(&mut out, VERSION);
    append_chars(&mut out, NSIS_BEFORE_OUTFILE);
    append_chars(&mut out, VERSION);
    append_chars(&mut out, NSIS_BEFORE_DISPLAY_VERSION);
    append_chars(&mut out, VERSION);
    append_chars(&mut out, NSIS_AFTER_DISPLAY_VERSION);
    proof {
        assert(out@ =~= nsis_script(VERSION@));
    }
    string_from_chars(&out)
}

} // verus!

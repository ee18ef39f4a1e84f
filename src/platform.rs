use vstd::prelude::*;
use vstd::string::StringExecFns;
use crate::text::same_text;

verus! {

/// Coarse classification of the operating system the program runs on.
#[derive(Debug, Clone, Copy, PartialEq, Eq, Structural)]
pub enum OperatingSystem {
    Mac,
    Windows,
    Linux,
    Other,
}

/// The classification of a host identifier such as `"macos"` or `"linux"`.
pub open spec fn classify(os_id: Seq<char>) -> OperatingSystem {
    if os_id == "macos"@ {
        OperatingSystem::Mac
    } else if os_id == "windows"@ {
        OperatingSystem::Windows
    } else if os_id == "linux"@ {
        OperatingSystem::Linux
    } else {
        OperatingSystem::Other
    }
}

/// Classifies the host identifier; unknown identifiers give `Other`.
pub fn detect_operating_system(os_id: &str) -> (r: OperatingSystem)
    ensures
        r == classify(os_id@),
        os_id@ == "macos"@ ==> r == OperatingSystem::Mac,
        os_id@ == "windows"@ ==> r == OperatingSystem::Windows,
        os_id@ == "linux"@ ==> r == OperatingSystem::Linux,
        os_id@ != "macos"@ && os_id@ != "windows"@ && os_id@ != "linux"@ ==> r
            == OperatingSystem::Other,
{
    proof {
        reveal_strlit("macos");
        reveal_strlit("windows");
        reveal_strlit("linux");
        assert("windows"@.len() != "macos"@.len());
        assert("windows"@.len() != "linux"@.len());
        assert("linux"@[0] != "macos"@[0]);
    }
    if same_text(os_id, "macos") {
        OperatingSystem::Mac
    } else if same_text(os_id, "windows") {
        OperatingSystem::Windows
    } else if same_text(os_id, "linux") {
        OperatingSystem::Linux
    } else {
        OperatingSystem::Other
    }
}

/// The advisory shown when the catalog's macOS-style paths do not match the host.
pub open spec fn advisory_text() -> Seq<char> {
    "Warning: this sample currently checks macOS-style application paths."@
}

/// The advisory for the given platform: present exactly when it is not a Mac.
pub fn platform_advisory(operating_system: OperatingSystem) -> (r: Option<String>)
    ensures
        r is Some <==> operating_system != OperatingSystem::Mac,
        r matches Some(s) ==> s@ == advisory_text(),
{
    if operating_system != OperatingSystem::Mac {
        Some(String::from_str("Warning: this sample currently checks macOS-style application paths."))
    } else {
        None
    }
}

} // verus!

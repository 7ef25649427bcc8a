//! Display names for the host platform. The caller supplies the compiler's
//! canonical operating-system and architecture tags; the mapping to the
//! names used in events and shortcuts is fixed here.

use vstd::prelude::*;

use crate::strutil::str_eq;

verus! {

/// The display names of the host platform.
pub struct SystemOSInfo {
    pub os: String,
    pub architecture: String,
}

/// The display name for an operating-system tag.
pub open spec fn os_display_name(tag: Seq<char>) -> Seq<char> {
    if tag == "windows"@ {
        "Windows"@
    } else if tag == "macos"@ {
        "macOS"@
    } else if tag == "linux"@ {
        "Linux"@
    } else {
        "Unknown OS"@
    }
}

/// The display name for an architecture tag.
pub open spec fn arch_display_name(tag: Seq<char>) -> Seq<char> {
    if tag == "x86"@ {
        "x86"@
    } else if tag == "x86_64"@ {
        "x64"@
    } else if tag == "aarch64"@ {
        "arm64"@
    } else {
        "Unknown Architecture"@
    }
}

/// Maps the canonical tags of the running platform (as `"windows"`,
/// `"macos"`, `"linux"`; `"x86"`, `"x86_64"`, `"aarch64"`) to the display
/// names that events and shortcuts carry.
pub fn get_system_os_info_current(os_tag: &str, arch_tag: &str) -> (r: SystemOSInfo)
    ensures
        r.os@ == os_display_name(os_tag@),
        r.architecture@ == arch_display_name(arch_tag@),
{
    let os = if str_eq(os_tag, "windows") {
        "Windows".to_owned()
    } else if str_eq(os_tag, "macos") {
        "macOS".to_owned()
    } else if str_eq(os_tag, "linux") {
        "Linux".to_owned()
    } else {
        "Unknown OS".to_owned()
    };
    let architecture = if str_eq(arch_tag, "x86") {
        "x86".to_owned()
    } else if str_eq(arch_tag, "x86_64") {
        "x64".to_owned()
    } else if str_eq(arch_tag, "aarch64") {
        "arm64".to_owned()
    } else {
        "Unknown Architecture".to_owned()
    };
    SystemOSInfo { os, architecture }
}

} // verus!

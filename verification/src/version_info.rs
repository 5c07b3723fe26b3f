//! Version information of the library.

use vstd::prelude::*;

verus! {

/// Application version information.
pub struct Version {
    /// Name of the application.
    pub app_name: &'static str,
    /// Service version.
    pub version: &'static str,
    /// Hash of the source revision the service is built from.
    pub git_hash: &'static str,
    /// Build time in RFC 3339 format.
    pub build_time: &'static str,
}

/// Get the current version information. A release build would substitute
/// the placeholders.
pub fn get_version() -> (r: Version)
    ensures
        r.app_name@ == "rustcroissant"@,
        r.version@ == "dev"@,
        r.git_hash@ == "dev"@,
        r.build_time@ == "now"@,
{
    Version { app_name: "rustcroissant", version: "dev", git_hash: "dev", build_time: "now" }
}

} // verus!

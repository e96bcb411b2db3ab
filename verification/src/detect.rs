//! What startup detection hands the controller: which profiles exist
//! and where their generation links live.  The probing itself (reading
//! the file system and the environment) happens outside the library.

use vstd::prelude::*;

use crate::strutil::{ends_with, starts_with};

verus! {

/// The detected host configuration.
#[derive(Debug, Clone)]
pub struct SystemInfo {
    pub hostname: String,
    pub username: String,
    pub uses_flakes: bool,
    pub system_profile: String,
    pub home_manager: Option<HomeManagerInfo>,
}

/// A detected user-profile installation.
#[derive(Debug, Clone)]
pub struct HomeManagerInfo {
    pub profile_path: String,
    pub is_standalone: bool,
}

/// A file name of the shape the user profile uses for generation links.
pub open spec fn spec_is_generation_link_name(n: Seq<char>) -> bool {
    crate::strutil::has_prefix(n, "home-manager-"@) && crate::strutil::has_suffix(n, "-link"@)
}

/// Does this file name look like a user-profile generation link?
pub fn is_generation_link_name(name: &str) -> (r: bool)
    ensures
        r == spec_is_generation_link_name(name@),
{
    let v = crate::strutil::chars_of(name);
    starts_with(&v, "home-manager-") && ends_with(&v, "-link")
}

} // verus!

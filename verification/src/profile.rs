//! The profile that is kept on this machine.

use vstd::prelude::*;

verus! {

/// The version of the file.
pub const FILE_VERSION: u32 = 1;

#[derive(Debug, Clone, PartialEq, Eq)]
pub struct LocalProfile {
    pub avatar: Option<String>,
    pub banner: Option<String>,
    pub bio: Option<String>,
    pub status: Option<String>,
    pub custom_status: Option<String>,
}

impl Default for LocalProfile {
    fn default() -> (r: LocalProfile)
        ensures
            r.avatar is None && r.banner is None && r.bio is None && r.status is None
                && r.custom_status is None,
    {
        LocalProfile { avatar: None, banner: None, bio: None, status: None, custom_status: None }
    }
}

/// A profile as it lies in its file.
#[derive(Debug, Clone, PartialEq, Eq)]
pub struct StoredProfile {
    pub version: u32,
    pub profile: LocalProfile,
}

/// The file of a profile.
pub fn to_stored(profile: LocalProfile) -> (r: StoredProfile)
    ensures
        r.version == FILE_VERSION && r.profile == profile,
{
    StoredProfile { version: FILE_VERSION, profile }
}

/// The profile of a file, unless another version wrote it.
pub fn from_stored(stored: StoredProfile) -> (r: Option<LocalProfile>)
    ensures
        r == if stored.version == FILE_VERSION {
            Some(stored.profile)
        } else {
            None
        },
{
    if stored.version != FILE_VERSION {
        return None;
    }
    Some(stored.profile)
}

} // verus!

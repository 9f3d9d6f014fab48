//! The build profile, which selects the output subdirectory.

use vstd::prelude::*;
use vstd::string::*;

verus! {

/// The possible build types.
#[derive(Debug, Clone, Copy, PartialEq, Eq, Structural, Hash)]
pub enum Build {
    /// This is a debug build.
    Debug,
    /// This is a release build.
    Release,
}

impl Build {
    /// The name of the directory, below the build-output root, that holds the
    /// artifacts of this profile.
    pub open spec fn dir_name(self) -> Seq<char> {
        match self {
            Build::Debug => "debug"@,
            Build::Release => "release"@,
        }
    }

    /// Returns the output subdirectory of this profile.
    pub fn as_str(&self) -> (name: &'static str)
        ensures
            name@ == self.dir_name(),
    {
        match self {
            Build::Debug => "debug",
            Build::Release => "release",
        }
    }
}

/// The build type that the release flag asks for.
pub fn build_type(release: bool) -> (build: Build)
    ensures
        build == if release {
            Build::Release
        } else {
            Build::Debug
        },
{
    if release {
        Build::Release
    } else {
        Build::Debug
    }
}

impl AsRef<str> for Build {
    fn as_ref(&self) -> (name: &str)
        ensures
            name@ == self.dir_name(),
    {
        self.as_str()
    }
}

impl Default for Build {
    fn default() -> (build: Build)
        ensures
            build == Build::Debug,
    {
        Build::Debug
    }
}

} // verus!

//! The operating systems that the terminal runs on.

use vstd::prelude::*;

verus! {

/// An operating system.
#[derive(Clone, Copy, Debug, PartialEq, Eq, Structural)]
pub enum Platform {
    Windows,
    Macos,
    OtherUnix,
}

impl Default for Platform {
    /// The system where none is named.
    fn default() -> (platform: Platform)
        ensures
            platform is OtherUnix,
    {
        Platform::OtherUnix
    }
}

impl Platform {
    /// Whether the system is a Unix system.
    pub open spec fn unix(self) -> bool {
        !(self is Windows)
    }

    /// Whether the system is a Unix system.
    pub fn is_unix(self) -> (unix: bool)
        ensures
            unix == self.unix(),
    {
        match self {
            Platform::Windows => false,
            _ => true,
        }
    }
}

} // verus!

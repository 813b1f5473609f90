//! Miscellaneous configuration options.

use vstd::prelude::*;

verus! {

/// General config section.
///
/// This section is for fields which can not be easily categorized,
/// to avoid common TOML issues with root-level fields.
#[derive(Debug)]
pub struct General {
    /// Shell startup directory.
    pub working_directory: Option<String>,

    /// Offer IPC through a unix socket.
    pub ipc_socket: bool,
}

impl Default for General {
    fn default() -> (general: General)
        ensures
            general == (General { working_directory: None, ipc_socket: true }),
    {
        General { ipc_socket: default_true(), working_directory: None }
    }
}

/// What a setting that is on by default is where it is absent.
pub fn default_true() -> (value: bool)
    ensures
        value,
{
    true
}

} // verus!

//! What is shown when the program crashes.

use crate::text::join;
use vstd::prelude::*;
use vstd::string::*;

verus! {

/// The title of the window that shows a crash.
pub fn crash_title() -> (title: String)
    ensures
        title@ == "Alacritty: Runtime Error"@,
{
    "Alacritty: Runtime Error".to_owned()
}

/// The text of the window that shows a crash.
pub fn crash_message(info: &str) -> (message: String)
    ensures
        message@ == info@ + "\n\nPress Ctrl-C to Copy"@,
{
    join(info, "\n\nPress Ctrl-C to Copy")
}

} // verus!

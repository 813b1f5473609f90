//! The process that runs in a pseudoterminal on Windows.

use crate::tty::pipe::Interest;
use crate::tty::ChildEvent;
use vstd::prelude::*;

verus! {

/// What is reported when the wait for a child ends.
#[derive(Clone, Copy, Debug, PartialEq, Eq, Structural)]
pub struct ChildExit {
    pub event: ChildEvent,
    /// The interest that is woken, if there is one.
    pub wake: Option<Interest>,
}

/// The interest in the exit of a child.
#[derive(Clone, Copy, Debug, PartialEq, Eq, Structural)]
pub struct ChildExitWatcher {
    pub interest: Option<Interest>,
}

impl ChildExitWatcher {
    /// Nobody is interested at first.
    pub fn new() -> (watcher: ChildExitWatcher)
        ensures
            watcher.interest is None,
    {
        ChildExitWatcher { interest: None }
    }

    /// Take an interest, in place of an earlier one.
    pub fn register(&mut self, interest: Interest)
        ensures
            final(self).interest == Some(interest),
    {
        self.interest = Some(interest);
    }

    /// Drop the interest.
    pub fn deregister(&mut self)
        ensures
            final(self).interest is None,
    {
        self.interest = None;
    }

    /// The wait for the child has ended: nothing happens where it timed out. The exit code may not
    /// be known.
    pub fn child_exit(&self, timed_out: bool, exit_code: Option<i32>) -> (exit: Option<ChildExit>)
        ensures
            exit == (if timed_out {
                None
            } else {
                Some(ChildExit { event: ChildEvent::Exited(exit_code), wake: self.interest })
            }),
    {
        if timed_out {
            return None;
        }
        Some(ChildExit { event: ChildEvent::Exited(exit_code), wake: self.interest })
    }
}

} // verus!

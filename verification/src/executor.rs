//! Kinetis thread-mode executor with low-power sleep support.

use vstd::prelude::*;

verus! {

/// What the executor does after it has polled its tasks.
#[derive(Clone, Copy, Debug, PartialEq, Eq, Structural)]
pub enum Idle {
    /// Poll again.
    Poll,
    /// Enter the configured power mode, with interrupts masked: one that is pending still ends it.
    Sleep,
}

/// Whether a task was woken since the executor last looked. Looked at with interrupts masked.
#[derive(Clone, Copy, Debug, PartialEq, Eq, Structural)]
pub struct WorkPending {
    pending: bool,
}

impl WorkPending {
    /// Whether a task was woken.
    pub closed spec fn is_pending(&self) -> bool {
        self.pending
    }

    /// No task was woken.
    pub fn new() -> (r: Self)
        ensures
            !r.is_pending(),
    {
        WorkPending { pending: false }
    }

    /// A task was woken.
    pub fn pend(&mut self)
        ensures
            final(self).is_pending(),
    {
        self.pending = true;
    }

    /// Decides what to do after the tasks were polled.
    pub fn idle(&mut self) -> (r: Idle)
        ensures
            r == if old(self).is_pending() {
                Idle::Poll
            } else {
                Idle::Sleep
            },
            !final(self).is_pending(),
    {
        if self.pending {
            self.pending = false;
            Idle::Poll
        } else {
            Idle::Sleep
        }
    }
}

impl Default for WorkPending {
    fn default() -> (r: Self)
        ensures
            !r.is_pending(),
    {
        WorkPending::new()
    }
}

} // verus!

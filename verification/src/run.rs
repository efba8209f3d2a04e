//! The run controller: the shared cancellation flag governing the
//! continuous-read loop. It starts set, is cleared by a transport-failure
//! detector or an external shutdown trigger, and is never set back
//! within a session.

use vstd::prelude::*;

verus! {

/// The session's cancellation flag, polled before every iteration of
/// the continuous-read loop.
pub struct RunController {
    running: bool,
}

impl RunController {
    /// True while the session may keep running.
    pub closed spec fn spec_running(&self) -> bool {
        self.running
    }

    /// Creates the flag in its initial, running state.
    pub fn new() -> (c: RunController)
        ensures
            c.spec_running(),
    {
        RunController { running: true }
    }

    /// Clears the flag; the owning loop must exit within one iteration.
    /// There is no way to set it back.
    pub fn clear(&mut self)
        ensures
            !final(self).spec_running(),
    {
        self.running = false;
    }

    /// Polls the flag.
    pub fn is_running(&self) -> (r: bool)
        ensures
            r == self.spec_running(),
    {
        self.running
    }
}

} // verus!

//! The synthesizer, once it has been started.

use vstd::prelude::*;

use crate::protocol::{WakeLock, WakeLockView};

verus! {

/// The number of the signal that asks a process to end.
pub const SIGTERM: i32 = 15;

/// A synthesizer that was started. While it is there, the computer is kept awake.
#[derive(Clone, Copy, Debug, PartialEq, Eq, Structural)]
pub struct PianoteqProcess {
    /// It is known to have ended.
    pub has_exited: bool,
}

/// How the computer is kept awake.
pub open spec fn wake_lock() -> WakeLockView {
    WakeLockView {
        sleep: true,
        reason: "Playing piano"@,
        app_name: "Auto-Pianoteq"@,
        app_reverse_domain: "pianoteq.auto"@,
    }
}

/// How the computer is kept awake.
pub(crate) fn wake_lock_request() -> (lock: WakeLock)
    ensures
        lock@ == wake_lock(),
{
    WakeLock {
        sleep: true,
        reason: "Playing piano".to_string(),
        app_name: "Auto-Pianoteq".to_string(),
        app_reverse_domain: "pianoteq.auto".to_string(),
    }
}

impl PianoteqProcess {
    /// Says whether the synthesizer is to be killed when the program gives it up: unless it
    /// is known to have ended.
    pub fn killed_on_drop(&self) -> (answer: bool)
        ensures
            answer == !self.has_exited,
    {
        !self.has_exited
    }
}

} // verus!

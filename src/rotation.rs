//! Identity rotation: drop cached DNS answers, ask for a new path, then let
//! the daemon settle before circuits are checked again.
use vstd::prelude::*;
use crate::reply::ControlError;

verus! {

/// Seconds to wait after the new-path signal before checking circuits.
pub const SETTLE_DELAY_SECS: u64 = 10;

/// A signal of the rotation was rejected or not answered.
pub struct RotationError {
    pub cause: ControlError,
}

/// What the caller is to do next.
pub enum RotationStep {
    /// Send this command and hand its reply to `on_reply`.
    Send(String),
    /// Wait this many seconds; the rotation is then done.
    Settle(u64),
    Failed(RotationError),
}

/// A rotation in progress: how many of its two signals were answered.
pub struct Rotation {
    pub answered: usize,
}

impl Rotation {
    /// Starts a rotation by clearing the DNS cache.
    pub fn new() -> (r: (Rotation, String))
        ensures
            r.0.answered == 0,
            r.1@ == "SIGNAL CLEARDNSCACHE"@,
    {
        (Rotation { answered: 0 }, "SIGNAL CLEARDNSCACHE".to_owned())
    }

    /// Takes the outcome of the last signal sent.
    pub fn on_reply(&mut self, reply: Result<Vec<String>, ControlError>) -> (r: RotationStep)
        requires
            old(self).answered < 2,
        ensures
            match reply {
                Err(e) => final(self).answered == old(self).answered
                    && r == RotationStep::Failed((RotationError { cause: e })),
                Ok(_) => final(self).answered == old(self).answered + 1 && if old(self).answered == 0 {
                    r matches RotationStep::Send(c) && c@ == "SIGNAL NEWNYM"@
                } else {
                    r == RotationStep::Settle(SETTLE_DELAY_SECS)
                },
            },
    {
        match reply {
            Err(e) => RotationStep::Failed(RotationError { cause: e }),
            Ok(_) => {
                if self.answered == 0 {
                    self.answered = 1;
                    RotationStep::Send("SIGNAL NEWNYM".to_owned())
                } else {
                    self.answered = 2;
                    RotationStep::Settle(SETTLE_DELAY_SECS)
                }
            },
        }
    }
}

} // verus!

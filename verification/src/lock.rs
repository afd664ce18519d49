//! The rules of the lock file that keeps a second process away from the
//! store. Reading and writing the file is left to the caller.

use vstd::prelude::*;

verus! {

/// A lock file and the age beyond which a lock is taken for abandoned.
#[derive(Debug)]
pub struct SmartLock {
    pub lock_file: String,
    pub timeout_seconds: u64,
}

/// The right to the lock file, held until it is given up.
#[derive(Debug)]
pub struct SmartLockGuard {
    pub lock_file: String,
}

/// What was found where the lock file should be.
#[derive(Debug, Clone, Copy, PartialEq, Eq, Structural)]
pub enum Probe {
    /// No lock file is there.
    Absent,
    /// A lock file is there, but when it was written cannot be told.
    Unreadable,
    /// A lock file is there and was written so long ago.
    Age { seconds: u64, nanos: u32 },
}

/// What to do about the lock file.
#[derive(Debug, Clone, Copy, PartialEq, Eq, Structural)]
pub enum Claim {
    /// Another process holds the lock: leave the file alone.
    Held,
    /// Write the lock file, after removing the abandoned one where
    /// `remove_stale` is set.
    Take { remove_stale: bool },
}

/// What to do after an attempt to take the lock.
#[derive(Debug, Clone, Copy, PartialEq, Eq, Structural)]
pub enum Wait {
    /// The lock is taken.
    Done,
    /// Sleep a tenth of a second and try again.
    Retry,
    /// The time is up.
    TimedOut,
}

impl SmartLock {
    /// The lock on the given file, with the age in seconds beyond which a
    /// lock is abandoned.
    pub fn new(path: String, timeout_seconds: u64) -> (lock: SmartLock)
        ensures
            lock.lock_file@ == path@,
            lock.timeout_seconds == timeout_seconds,
    {
        SmartLock { lock_file: path, timeout_seconds }
    }

    /// A lock written so long ago is abandoned: its age is more than the
    /// timeout.
    pub open spec fn stale(self, seconds: u64, nanos: u32) -> bool {
        seconds > self.timeout_seconds || (seconds == self.timeout_seconds && nanos > 0)
    }

    /// The claim that follows from what was found: a lock file of some age is
    /// respected unless it is abandoned; otherwise the lock is taken.
    pub open spec fn claim_for(self, probe: Probe) -> Claim {
        match probe {
            Probe::Absent => Claim::Take { remove_stale: false },
            Probe::Unreadable => Claim::Take { remove_stale: false },
            Probe::Age { seconds, nanos } => if self.stale(seconds, nanos) {
                Claim::Take { remove_stale: true }
            } else {
                Claim::Held
            },
        }
    }

    /// Whether a lock written so long ago is abandoned.
    pub fn is_stale(&self, seconds: u64, nanos: u32) -> (b: bool)
        ensures
            b == self.stale(seconds, nanos),
    {
        seconds > self.timeout_seconds || (seconds == self.timeout_seconds && nanos > 0)
    }

    /// Decides what to do about the lock file.
    pub fn claim(&self, probe: Probe) -> (c: Claim)
        ensures
            c == self.claim_for(probe),
    {
        match probe {
            Probe::Absent => Claim::Take { remove_stale: false },
            Probe::Unreadable => Claim::Take { remove_stale: false },
            Probe::Age { seconds, nanos } => if self.is_stale(seconds, nanos) {
                Claim::Take { remove_stale: true }
            } else {
                Claim::Held
            },
        }
    }

    /// The guard of this lock's file.
    pub fn guard(&self) -> (g: SmartLockGuard)
        ensures
            g.lock_file@ == self.lock_file@,
    {
        SmartLockGuard { lock_file: self.lock_file.clone() }
    }

    /// What follows an attempt to take the lock within `timeout_secs`: done
    /// where it was taken; else, where the clock could be read and more than
    /// `timeout_secs` whole seconds have passed since the first attempt, the
    /// time is up; else another attempt.
    pub open spec fn wait_for(taken: bool, waited_secs: Option<u64>, timeout_secs: u64) -> Wait {
        if taken {
            Wait::Done
        } else if waited_secs matches Some(w) && w > timeout_secs {
            Wait::TimedOut
        } else {
            Wait::Retry
        }
    }

    /// Decides what follows an attempt to take the lock.
    pub fn after_attempt(taken: bool, waited_secs: Option<u64>, timeout_secs: u64) -> (w: Wait)
        ensures
            w == Self::wait_for(taken, waited_secs, timeout_secs),
    {
        if taken {
            return Wait::Done;
        }
        match waited_secs {
            Some(w) => if w > timeout_secs {
                Wait::TimedOut
            } else {
                Wait::Retry
            },
            None => Wait::Retry,
        }
    }
}

} // verus!

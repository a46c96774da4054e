use vstd::prelude::*;

use crate::errors::Error;

verus! {

/// Where the runner reads the time from: the system clock, or a counter that
/// advances by a fixed step on every reading, for deterministic runs.
pub enum Clock {
    System,
    Manual { now: u64, step: u64 },
}

/// Relies on std::time::SystemTime::now: the nanoseconds since the epoch, as
/// far as they fit; nothing is promised of the value.
#[verifier::external_body]
fn system_now_ns() -> u64 {
    match std::time::SystemTime::now().duration_since(std::time::UNIX_EPOCH) {
        Ok(d) => {
            let n = d.as_nanos();
            if n > u64::MAX as u128 {
                u64::MAX
            } else {
                n as u64
            }
        }
        Err(_) => 0,
    }
}

impl Clock {
    /// Reads the clock. A manual clock returns its counter and advances it.
    pub fn now(&mut self) -> (r: u64)
        ensures
            *old(self) is System ==> *final(self) is System,
            *old(self) matches Clock::Manual { now, step } ==> r == now && *final(self) == (
            Clock::Manual {
                now: if now + step <= u64::MAX {
                    (now + step) as u64
                } else {
                    u64::MAX
                },
                step,
            }),
    {
        match self {
            Clock::System => system_now_ns(),
            Clock::Manual { now, step } => {
                let r = *now;
                *now = crate::storage::saturating_add_u64(*now, *step);
                r
            }
        }
    }
}

/// An absolute time bound, checked cooperatively once per produced row.
#[derive(Clone, Copy, PartialEq, Eq, Structural, Debug)]
pub struct Deadline {
    pub deadline_ns: u64,
}

impl Deadline {
    pub fn new(deadline_ns: u64) -> (r: Deadline)
        ensures
            r.deadline_ns == deadline_ns,
    {
        Deadline { deadline_ns }
    }

    /// Fails with the distinguished deadline error exactly when the given
    /// reading lies past the bound.
    pub fn check(&self, now: u64) -> (r: Result<(), Error>)
        ensures
            r is Ok <==> now <= self.deadline_ns,
            r is Err ==> r == Err::<(), Error>(Error::DeadlineExceeded),
    {
        if now > self.deadline_ns {
            Err(Error::DeadlineExceeded)
        } else {
            Ok(())
        }
    }
}

} // verus!

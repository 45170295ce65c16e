//! The control surface's guard: one status that admits a single mutating
//! operation at a time and turns every other one away.
use vstd::prelude::*;

use crate::error::{error_line, get_error_str};
use crate::session::{dry_run_of, is_dry_run, Operation};

verus! {

/// What the engine is doing.
#[derive(Debug, Clone, Copy, PartialEq, Eq, Structural)]
pub enum Status {
    Idle,
    Checking,
    Deploying,
}

/// The wire value of a status.
pub open spec fn status_code(s: Status) -> u8 {
    match s {
        Status::Idle => 0,
        Status::Checking => 1,
        Status::Deploying => 2,
    }
}

impl Status {
    /// The wire value: 0 idle, 1 checking, 2 deploying.
    pub fn code(&self) -> (r: u8)
        ensures
            r == status_code(*self),
    {
        match self {
            Status::Idle => 0,
            Status::Checking => 1,
            Status::Deploying => 2,
        }
    }
}

/// The status that an admitted operation runs under.
pub open spec fn status_for(op: Operation) -> Status {
    if is_dry_run(op) {
        Status::Checking
    } else {
        Status::Deploying
    }
}

/// What a client is told when a request fails.
#[derive(Debug, Clone)]
pub enum Error {
    /// An engine error, rendered as one line.
    Engine(String),
    EngineIsBusy,
}

impl Error {
    /// The client's view of an engine error: its chain on one line.
    pub fn from_engine(e: &crate::error::Error) -> (r: Error)
        ensures
            r matches Error::Engine(m) && m@ == error_line(*e),
    {
        Error::Engine(get_error_str(e))
    }
}

/// The guard in front of the engine.
#[derive(Debug)]
pub struct Guard {
    status: Status,
}

impl Guard {
    pub closed spec fn status_spec(&self) -> Status {
        self.status
    }

    /// An idle guard.
    pub fn new() -> (r: Guard)
        ensures
            r.status_spec() == Status::Idle,
    {
        Guard { status: Status::Idle }
    }

    /// The current status.
    pub fn status(&self) -> (r: Status)
        ensures
            r == self.status_spec(),
    {
        self.status
    }

    /// Admits `op` when the engine is idle, and records what it is doing;
    /// otherwise fails with `EngineIsBusy` and changes nothing.
    pub fn begin(&mut self, op: &Operation) -> (r: Result<(), Error>)
        ensures
            r is Ok <==> admits(old(self).status_spec()),
            match r {
                Ok(_) => final(self).status_spec() == status_for(*op),
                Err(e) => e is EngineIsBusy && final(self).status_spec() == old(self).status_spec(),
            },
    {
        if self.status != Status::Idle {
            return Err(Error::EngineIsBusy);
        }
        self.status = if dry_run_of(op) {
            Status::Checking
        } else {
            Status::Deploying
        };
        Ok(())
    }

    /// Marks the admitted operation as over, however it ended.
    pub fn end(&mut self)
        ensures
            final(self).status_spec() == Status::Idle,
    {
        self.status = Status::Idle;
    }
}

/// Whether the guard admits a new operation under status `s`.
pub open spec fn admits(s: Status) -> bool {
    s == Status::Idle
}

/// While an admitted operation is in flight, the guard admits no other: a
/// second request is turned away as busy, and the guard stays as it was.
pub proof fn lemma_busy_rejection(first: Operation)
    ensures
        !admits(status_for(first)),
{
}

} // verus!

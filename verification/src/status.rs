//! The labels of the per-task state machine.

use vstd::prelude::*;
use vstd::string::*;

verus! {

/// The state of a monitor.
#[derive(Clone, Copy, Debug, PartialEq, Eq, Structural)]
pub enum Status {
    Inactive,
    Active,
    Reloading,
    Failing,
    Finished,
    Failed,
    Stopping,
    Stopped,
}

/// Whether `start` has an effect in `state`.
pub open spec fn spec_startable_state(state: Status) -> bool {
    state == Status::Inactive || state == Status::Finished || state == Status::Failed
        || state == Status::Stopped
}

/// Whether `state` is one in which the monitor is at work.
pub open spec fn spec_running_state(state: Status) -> bool {
    state == Status::Active || state == Status::Reloading || state == Status::Failing
        || state == Status::Stopping
}

/// The terminal label that a monitor in `state` commits to once nothing runs.
pub open spec fn spec_finished_state(state: Status) -> Status {
    match state {
        Status::Stopping | Status::Stopped => Status::Stopped,
        Status::Failing | Status::Failed => Status::Failed,
        _ => Status::Finished,
    }
}

#[verifier::when_used_as_spec(spec_startable_state)]
pub fn startable_state(state: Status) -> (r: bool)
    ensures
        r == spec_startable_state(state),
{
    state == Status::Inactive || state == Status::Finished || state == Status::Failed
        || state == Status::Stopped
}

#[verifier::when_used_as_spec(spec_running_state)]
pub fn running_state(state: Status) -> (r: bool)
    ensures
        r == spec_running_state(state),
{
    state == Status::Active || state == Status::Reloading || state == Status::Failing
        || state == Status::Stopping
}

#[verifier::when_used_as_spec(spec_finished_state)]
pub fn finished_state(state: Status) -> (r: Status)
    ensures
        r == spec_finished_state(state),
{
    match state {
        Status::Stopping | Status::Stopped => Status::Stopped,
        Status::Failing | Status::Failed => Status::Failed,
        _ => Status::Finished,
    }
}

impl Status {
    /// The state's name in answers.
    pub open spec fn spec_name(self) -> Seq<char> {
        match self {
            Status::Inactive => "inactive"@,
            Status::Active => "active"@,
            Status::Reloading => "reloading"@,
            Status::Failing => "failing"@,
            Status::Finished => "finished"@,
            Status::Failed => "failed"@,
            Status::Stopping => "stopping"@,
            Status::Stopped => "stopped"@,
        }
    }

    pub fn name(&self) -> (r: &'static str)
        ensures
            r@ == self.spec_name(),
    {
        match self {
            Status::Inactive => "inactive",
            Status::Active => "active",
            Status::Reloading => "reloading",
            Status::Failing => "failing",
            Status::Finished => "finished",
            Status::Failed => "failed",
            Status::Stopping => "stopping",
            Status::Stopped => "stopped",
        }
    }

    pub fn to_string(&self) -> (r: String)
        ensures
            r@ == self.spec_name(),
    {
        String::from_str(self.name())
    }
}

} // verus!

//! The children of a task, by the stage they are in: running, asked to
//! stop, or exited and waiting to be judged.
//!
//! A child is known by the number it was spawned under. Times are readings
//! of one monotonic clock, in nanoseconds.

use crate::signal::StopSignal;
use vstd::prelude::*;

verus! {

/// Nanoseconds in a second.
pub const NANOS_PER_SEC: u64 = 1_000_000_000;

/// A number of seconds in nanoseconds.
pub open spec fn spec_seconds(secs: u32) -> u64 {
    (secs as u64 * NANOS_PER_SEC) as u64
}

#[verifier::when_used_as_spec(spec_seconds)]
pub fn seconds(secs: u32) -> (r: u64)
    ensures
        r == spec_seconds(secs),
        r == secs as int * 1_000_000_000,
{
    assert(secs as u64 * NANOS_PER_SEC <= u64::MAX) by (nonlinear_arith)
        requires
            secs <= u32::MAX,
            NANOS_PER_SEC == 1_000_000_000,
    ;
    secs as u64 * NANOS_PER_SEC
}

/// The time from `since` to `now`, zero where `now` comes first.
pub open spec fn spec_elapsed(since: u64, now: u64) -> u64 {
    if now >= since {
        (now - since) as u64
    } else {
        0
    }
}

#[verifier::when_used_as_spec(spec_elapsed)]
pub fn elapsed(since: u64, now: u64) -> (r: u64)
    ensures
        r == spec_elapsed(since, now),
{
    if now >= since {
        now - since
    } else {
        0
    }
}

/// The observation that a child has exited: with an exit code, or with
/// none where a signal ended it.
#[derive(Clone, Copy, Debug)]
pub struct ChildExit {
    pub id: u32,
    pub code: Option<i32>,
}

/// A child that runs.
#[derive(Clone, Copy, Debug)]
pub struct RunningChild {
    pub id: u32,
    pub started_at: u64,
    /// How long it must run for its start to count as a success.
    pub startup_time: u64,
    pub stopsignal: StopSignal,
    /// How long it is given to exit once asked to stop.
    pub stopdelay: u64,
}

/// A child that was asked to stop and has not been seen to exit.
#[derive(Clone, Copy, Debug)]
pub struct StoppingChild {
    pub id: u32,
    pub started_at: u64,
    pub startup_time: u64,
    pub stopped_at: u64,
    pub timeout: u64,
}

/// A child that has exited and has not been judged yet.
#[derive(Clone, Copy, Debug)]
pub struct FinishedChild {
    pub id: u32,
    /// The exit code, `None` where a signal ended the child.
    pub status: Option<i32>,
    pub execution_time: u64,
    pub startup_time: u64,
}

/// The request to send `signal` to the child `child`.
#[derive(Clone, Copy, Debug)]
pub struct SignalOrder {
    pub child: u32,
    pub signal: StopSignal,
}

impl RunningChild {
    /// The child once it was asked to stop at `now`.
    pub open spec fn spec_stop(self, now: u64) -> StoppingChild {
        StoppingChild {
            id: self.id,
            started_at: self.started_at,
            startup_time: self.startup_time,
            stopped_at: now,
            timeout: self.stopdelay,
        }
    }

    /// The child once it was seen at `now` to have exited with `status`.
    pub open spec fn spec_finish(self, status: Option<i32>, now: u64) -> FinishedChild {
        FinishedChild {
            id: self.id,
            status,
            execution_time: spec_elapsed(self.started_at, now),
            startup_time: self.startup_time,
        }
    }

    pub fn new(id: u32, started_at: u64, startup_time: u64, stopsignal: StopSignal, stopdelay: u64) -> (r:
        RunningChild)
        ensures
            r == (RunningChild { id, started_at, startup_time, stopsignal, stopdelay }),
    {
        RunningChild { id, started_at, startup_time, stopsignal, stopdelay }
    }

    /// Marks the child as asked to stop at `now`, and says which signal
    /// asks it.
    pub fn stop(self, now: u64) -> (r: (StoppingChild, SignalOrder))
        ensures
            r.0 == self.spec_stop(now),
            r.1 == (SignalOrder { child: self.id, signal: self.stopsignal }),
    {
        (
            StoppingChild::new(self.id, self.started_at, self.startup_time, now, self.stopdelay),
            SignalOrder { child: self.id, signal: self.stopsignal },
        )
    }

    #[verifier::when_used_as_spec(spec_finish)]
    pub fn finish(self, status: Option<i32>, now: u64) -> (r: FinishedChild)
        ensures
            r == self.spec_finish(status, now),
    {
        FinishedChild::new(self.id, status, elapsed(self.started_at, now), self.startup_time)
    }
}

impl StoppingChild {
    /// The child once it was seen at `now` to have exited with `status`.
    pub open spec fn spec_finish(self, status: Option<i32>, now: u64) -> FinishedChild {
        FinishedChild {
            id: self.id,
            status,
            execution_time: spec_elapsed(self.started_at, now),
            startup_time: self.startup_time,
        }
    }

    /// Whether at `now` the child has had more than its delay to exit.
    pub open spec fn spec_overdue(self, now: u64) -> bool {
        spec_elapsed(self.stopped_at, now) > self.timeout
    }

    pub fn new(id: u32, started_at: u64, startup_time: u64, stopped_at: u64, timeout: u64) -> (r:
        StoppingChild)
        ensures
            r == (StoppingChild { id, started_at, startup_time, stopped_at, timeout }),
    {
        StoppingChild { id, started_at, startup_time, stopped_at, timeout }
    }

    #[verifier::when_used_as_spec(spec_finish)]
    pub fn finish(self, status: Option<i32>, now: u64) -> (r: FinishedChild)
        ensures
            r == self.spec_finish(status, now),
    {
        FinishedChild::new(self.id, status, elapsed(self.started_at, now), self.startup_time)
    }

    #[verifier::when_used_as_spec(spec_overdue)]
    pub fn overdue(self, now: u64) -> (r: bool)
        ensures
            r == self.spec_overdue(now),
    {
        elapsed(self.stopped_at, now) > self.timeout
    }
}

impl FinishedChild {
    pub fn new(id: u32, status: Option<i32>, execution_time: u64, startup_time: u64) -> (r:
        FinishedChild)
        ensures
            r == (FinishedChild { id, status, execution_time, startup_time }),
    {
        FinishedChild { id, status, execution_time, startup_time }
    }
}

/// What `exits` says of the child `id`: `None` where it is not listed, else
/// the status of its first entry.
pub open spec fn exit_of(exits: Seq<ChildExit>, id: u32) -> Option<Option<i32>>
    decreases exits.len(),
{
    if exits.len() == 0 {
        None
    } else if exits[0].id == id {
        Some(exits[0].code)
    } else {
        exit_of(exits.drop_first(), id)
    }
}

/// Looks the child `id` up among the observed exits.
pub fn find_exit(exits: &Vec<ChildExit>, id: u32) -> (r: Option<Option<i32>>)
    ensures
        r == exit_of(exits@, id),
{
    let mut i: usize = 0;
    assert(exits@.skip(0) =~= exits@);
    while i < exits.len()
        invariant
            i <= exits.len(),
            exit_of(exits@, id) == exit_of(exits@.skip(i as int), id),
        decreases exits.len() - i,
    {
        if exits[i].id == id {
            return Some(exits[i].code);
        }
        assert(exits@.skip(i as int).drop_first() =~= exits@.skip(i + 1));
        i += 1;
    }
    None
}

/// The running children that `exits` does not list, in their order.
pub open spec fn kept_running(running: Seq<RunningChild>, exits: Seq<ChildExit>) -> Seq<RunningChild>
    decreases running.len(),
{
    if running.len() == 0 {
        running
    } else {
        let before = kept_running(running.drop_last(), exits);
        if exit_of(exits, running.last().id).is_none() {
            before.push(running.last())
        } else {
            before
        }
    }
}

/// The running children that `exits` lists, in their order, each as it
/// stands once seen at `now` to have exited.
pub open spec fn reaped_running(running: Seq<RunningChild>, exits: Seq<ChildExit>, now: u64) -> Seq<
    FinishedChild,
>
    decreases running.len(),
{
    if running.len() == 0 {
        Seq::empty()
    } else {
        let before = reaped_running(running.drop_last(), exits, now);
        match exit_of(exits, running.last().id) {
            Some(status) => before.push(running.last().spec_finish(status, now)),
            None => before,
        }
    }
}

/// The stopping children that `exits` does not list, in their order.
pub open spec fn kept_stopping(stopping: Seq<StoppingChild>, exits: Seq<ChildExit>) -> Seq<
    StoppingChild,
>
    decreases stopping.len(),
{
    if stopping.len() == 0 {
        stopping
    } else {
        let before = kept_stopping(stopping.drop_last(), exits);
        if exit_of(exits, stopping.last().id).is_none() {
            before.push(stopping.last())
        } else {
            before
        }
    }
}

/// The stopping children that `exits` lists, in their order, each as it
/// stands once seen at `now` to have exited.
pub open spec fn reaped_stopping(stopping: Seq<StoppingChild>, exits: Seq<ChildExit>, now: u64) -> Seq<
    FinishedChild,
>
    decreases stopping.len(),
{
    if stopping.len() == 0 {
        Seq::empty()
    } else {
        let before = reaped_stopping(stopping.drop_last(), exits, now);
        match exit_of(exits, stopping.last().id) {
            Some(status) => before.push(stopping.last().spec_finish(status, now)),
            None => before,
        }
    }
}

/// The numbers of the stopping children that `exits` does not list and
/// that at `now` have had more than their delay to exit, in their order.
pub open spec fn due_for_kill(stopping: Seq<StoppingChild>, exits: Seq<ChildExit>, now: u64) -> Seq<
    u32,
>
    decreases stopping.len(),
{
    if stopping.len() == 0 {
        Seq::empty()
    } else {
        let before = due_for_kill(stopping.drop_last(), exits, now);
        if exit_of(exits, stopping.last().id).is_none() && stopping.last().spec_overdue(now) {
            before.push(stopping.last().id)
        } else {
            before
        }
    }
}

/// The running children as they stand once all were asked to stop at `now`.
pub open spec fn stopped_all(running: Seq<RunningChild>, now: u64) -> Seq<StoppingChild> {
    Seq::new(running.len(), |i: int| running[i].spec_stop(now))
}

/// The signals that ask each of the running children to stop.
pub open spec fn stop_signals(running: Seq<RunningChild>) -> Seq<SignalOrder> {
    Seq::new(running.len(), |i: int| SignalOrder { child: running[i].id, signal: running[i].stopsignal })
}

/// Parts the running children into those still running and those that
/// `exits` reports.
pub fn reap_running(running: &Vec<RunningChild>, exits: &Vec<ChildExit>, now: u64) -> (r: (
    Vec<RunningChild>,
    Vec<FinishedChild>,
))
    ensures
        r.0@ == kept_running(running@, exits@),
        r.1@ == reaped_running(running@, exits@, now),
{
    let mut kept: Vec<RunningChild> = Vec::new();
    let mut done: Vec<FinishedChild> = Vec::new();
    let mut i: usize = 0;
    assert(running@.take(0) =~= Seq::<RunningChild>::empty());
    while i < running.len()
        invariant
            i <= running.len(),
            kept@ == kept_running(running@.take(i as int), exits@),
            done@ == reaped_running(running@.take(i as int), exits@, now),
        decreases running.len() - i,
    {
        let child = running[i];
        proof {
            let upto = running@.take(i + 1);
            assert(upto.drop_last() =~= running@.take(i as int));
            assert(upto.last() == child);
        }
        match find_exit(exits, child.id) {
            Some(status) => done.push(child.finish(status, now)),
            None => kept.push(child),
        }
        i += 1;
    }
    assert(running@.take(running.len() as int) =~= running@);
    (kept, done)
}

/// Parts the stopping children into those still there and those that
/// `exits` reports.
pub fn reap_stopping(stopping: &Vec<StoppingChild>, exits: &Vec<ChildExit>, now: u64) -> (r: (
    Vec<StoppingChild>,
    Vec<FinishedChild>,
))
    ensures
        r.0@ == kept_stopping(stopping@, exits@),
        r.1@ == reaped_stopping(stopping@, exits@, now),
{
    let mut kept: Vec<StoppingChild> = Vec::new();
    let mut done: Vec<FinishedChild> = Vec::new();
    let mut i: usize = 0;
    assert(stopping@.take(0) =~= Seq::<StoppingChild>::empty());
    while i < stopping.len()
        invariant
            i <= stopping.len(),
            kept@ == kept_stopping(stopping@.take(i as int), exits@),
            done@ == reaped_stopping(stopping@.take(i as int), exits@, now),
        decreases stopping.len() - i,
    {
        let child = stopping[i];
        proof {
            let upto = stopping@.take(i + 1);
            assert(upto.drop_last() =~= stopping@.take(i as int));
            assert(upto.last() == child);
        }
        match find_exit(exits, child.id) {
            Some(status) => done.push(child.finish(status, now)),
            None => kept.push(child),
        }
        i += 1;
    }
    assert(stopping@.take(stopping.len() as int) =~= stopping@);
    (kept, done)
}

/// Lists the stopping children to kill at `now`: those that `exits` does
/// not report and whose delay is over.
pub fn overdue_children(stopping: &Vec<StoppingChild>, exits: &Vec<ChildExit>, now: u64) -> (r: Vec<
    u32,
>)
    ensures
        r@ == due_for_kill(stopping@, exits@, now),
{
    let mut due: Vec<u32> = Vec::new();
    let mut i: usize = 0;
    assert(stopping@.take(0) =~= Seq::<StoppingChild>::empty());
    while i < stopping.len()
        invariant
            i <= stopping.len(),
            due@ == due_for_kill(stopping@.take(i as int), exits@, now),
        decreases stopping.len() - i,
    {
        let child = stopping[i];
        proof {
            let upto = stopping@.take(i + 1);
            assert(upto.drop_last() =~= stopping@.take(i as int));
            assert(upto.last() == child);
        }
        if find_exit(exits, child.id).is_none() && child.overdue(now) {
            due.push(child.id);
        }
        i += 1;
    }
    assert(stopping@.take(stopping.len() as int) =~= stopping@);
    due
}

} // verus!

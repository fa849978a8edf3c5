//! The per-task state machine as a mathematical object: what a monitor is,
//! and what each of its transitions makes of it.

use crate::child::{
    kept_running, kept_stopping, reaped_running, reaped_stopping, spec_seconds, stopped_all,
    ChildExit, FinishedChild, RunningChild, StoppingChild,
};
use crate::relaunch::Relaunch;
use crate::status::{spec_finished_state, spec_startable_state, Status};
use crate::task::TaskView;
use vstd::prelude::*;

verus! {

/// A monitor as a mathematical value.
pub struct MonitorView {
    pub id: Seq<char>,
    pub task: TaskView,
    pub retry_count: u32,
    pub spawned_children: u32,
    pub state: Status,
    pub running: Seq<RunningChild>,
    pub stopping: Seq<StoppingChild>,
    pub finished: Seq<FinishedChild>,
}

/// The child of `task` that is spawned at `now` under the number `id`.
pub open spec fn new_child(task: TaskView, id: u32, now: u64) -> RunningChild {
    RunningChild {
        id,
        started_at: now,
        startup_time: spec_seconds(task.successdelay),
        stopsignal: task.stopsignal,
        stopdelay: spec_seconds(task.stopdelay),
    }
}

/// `count` children of `task` spawned at `now`, numbered from `first` on.
pub open spec fn new_children(task: TaskView, first: u32, count: nat, now: u64) -> Seq<RunningChild> {
    Seq::new(count, |k: int| new_child(task, (first + k) as u32, now))
}

/// How the exit of `child` counts for `task`: `Failed` where a signal ended
/// it, where its exit code is none that the task expects, or where it ran
/// for less than its success delay; `Finished` otherwise.
pub open spec fn classify(task: TaskView, child: FinishedChild) -> Status {
    match child.status {
        None => Status::Failed,
        Some(code) => if !task.exitcodes.contains(code) {
            Status::Failed
        } else if child.execution_time < child.startup_time {
            Status::Failed
        } else {
            Status::Finished
        },
    }
}

/// Whether an exit that counts as `outcome` calls for a new child: retries
/// are left, and the policy restarts after such an outcome.
pub open spec fn restart_wanted(task: TaskView, retry_count: u32, outcome: Status) -> bool {
    retry_count < task.retry && ((outcome == Status::Failed && task.restart == Relaunch::OnError) || (
    outcome == Status::Finished && task.restart == Relaunch::Always))
}

/// The state after a failure was seen in `state`: a monitor that is
/// stopping goes on stopping, any other is failing.
pub open spec fn after_failure(state: Status) -> Status {
    if state == Status::Stopping {
        Status::Stopping
    } else {
        Status::Failing
    }
}

/// Whether the numbers of `s` rise strictly and lie from `lo` up to, not
/// including, `hi`.
pub open spec fn running_within(s: Seq<RunningChild>, lo: int, hi: int) -> bool {
    &&& forall|i: int| 0 <= i < s.len() ==> lo <= (#[trigger] s[i]).id < hi
    &&& forall|i: int, j: int| 0 <= i < j < s.len() ==> (#[trigger] s[i]).id < (#[trigger] s[j]).id
}

/// Whether the numbers of `s` rise strictly and lie from `lo` up to, not
/// including, `hi`.
pub open spec fn stopping_within(s: Seq<StoppingChild>, lo: int, hi: int) -> bool {
    &&& forall|i: int| 0 <= i < s.len() ==> lo <= (#[trigger] s[i]).id < hi
    &&& forall|i: int, j: int| 0 <= i < j < s.len() ==> (#[trigger] s[i]).id < (#[trigger] s[j]).id
}

/// Whether every child of `s` carries the settings of `task`: its success
/// delay, its stop signal and its stop delay.
pub open spec fn running_of_task(s: Seq<RunningChild>, task: TaskView) -> bool {
    forall|i: int| 0 <= i < s.len() ==> (#[trigger] s[i]) == new_child(task, s[i].id, s[i].started_at)
}

impl MonitorView {
    /// The monitor of a task that was never started.
    pub open spec fn fresh(id: Seq<char>, task: TaskView) -> MonitorView {
        MonitorView {
            id,
            task,
            retry_count: 0,
            spawned_children: 0,
            state: Status::Inactive,
            running: Seq::empty(),
            stopping: Seq::empty(),
            finished: Seq::empty(),
        }
    }

    /// What holds of a monitor at every moment: the task is well formed; no
    /// more retries were made than the task allows; every child has a number
    /// of its own, below the count of children spawned; in each cohort the
    /// numbers rise, and every stopping child was spawned before every
    /// running one; the running children carry the task's settings.
    pub open spec fn sound(self) -> bool {
        &&& self.task.wf()
        &&& self.retry_count <= self.task.retry
        &&& running_of_task(self.running, self.task)
        &&& running_within(self.running, 0, self.spawned_children as int)
        &&& stopping_within(self.stopping, 0, self.spawned_children as int)
        &&& forall|i: int, j: int|
            0 <= i < self.stopping.len() && 0 <= j < self.running.len() ==> (
            #[trigger] self.stopping[i]).id < (#[trigger] self.running[j]).id
    }

    /// What holds of a monitor between two transitions: it is sound, and no
    /// exited child waits to be judged.
    pub open spec fn wf(self) -> bool {
        &&& self.sound()
        &&& self.finished.len() == 0
    }

    /// Whether `count` more children can be numbered.
    pub open spec fn has_room(self, count: nat) -> bool {
        self.spawned_children + count <= u32::MAX
    }

    /// The monitor with `count` children spawned at `now`.
    pub open spec fn spawn(self, count: nat, now: u64) -> MonitorView {
        MonitorView {
            running: self.running + new_children(self.task, self.spawned_children, count, now),
            spawned_children: (self.spawned_children + count) as u32,
            ..self
        }
    }

    /// A start whatever the state: the retries begin anew, and the task's
    /// number of children is spawned, which makes the monitor active. Where
    /// the numbers to spawn them under have run out, the start fails.
    pub open spec fn start_raw(self, now: u64) -> MonitorView {
        if self.has_room(self.task.numprocess as nat) {
            MonitorView {
                retry_count: 0,
                state: Status::Active,
                ..self.spawn(self.task.numprocess as nat, now)
            }
        } else {
            MonitorView { retry_count: 0, state: Status::Failed, ..self }
        }
    }

    /// A start: it takes effect in a state from which a monitor can be
    /// started, and changes nothing in any other.
    pub open spec fn start(self, now: u64) -> MonitorView {
        if spec_startable_state(self.state) {
            self.start_raw(now)
        } else {
            self
        }
    }

    /// A stop at `now`: every running child becomes a stopping one.
    pub open spec fn stop(self, now: u64) -> MonitorView {
        MonitorView {
            state: Status::Stopping,
            running: Seq::empty(),
            stopping: self.stopping + stopped_all(self.running, now),
            ..self
        }
    }

    /// A reload with `task` at `now`. The same task changes nothing. Another
    /// one takes the place of the old: the running children are stopped, and
    /// the monitor starts anew where the new task starts by itself or
    /// children were running; else it is inactive.
    pub open spec fn reload(self, task: TaskView, now: u64) -> MonitorView {
        if self.task == task {
            self
        } else {
            let halted = if self.running.len() > 0 {
                self.stop(now)
            } else {
                self
            };
            let replaced = MonitorView { task, retry_count: 0, state: Status::Reloading, ..halted };
            if task.autostart || self.running.len() > 0 {
                replaced.start_raw(now)
            } else {
                MonitorView { state: Status::Inactive, ..replaced }
            }
        }
    }

    /// The children that `exits` reports leave their cohorts and wait to be
    /// judged.
    pub open spec fn reap(self, exits: Seq<ChildExit>, now: u64) -> MonitorView {
        MonitorView {
            running: kept_running(self.running, exits),
            stopping: kept_stopping(self.stopping, exits),
            finished: self.finished + reaped_running(self.running, exits, now) + reaped_stopping(
                self.stopping,
                exits,
                now,
            ),
            ..self
        }
    }

    /// The exit of `child` is judged at `now`. A failure makes the monitor
    /// failing unless it is stopping. Where the policy wants a restart, one
    /// retry is used and one child spawned; where no number is left to spawn
    /// it under, that counts as a failure too.
    pub open spec fn settle(self, child: FinishedChild, now: u64) -> MonitorView {
        let outcome = classify(self.task, child);
        let state = if outcome == Status::Failed {
            after_failure(self.state)
        } else {
            self.state
        };
        if restart_wanted(self.task, self.retry_count, outcome) {
            if self.has_room(1) {
                MonitorView {
                    state,
                    retry_count: (self.retry_count + 1) as u32,
                    ..self.spawn(1, now)
                }
            } else {
                MonitorView { state: after_failure(state), ..self }
            }
        } else {
            MonitorView { state, ..self }
        }
    }

    /// Every child that waits to be judged is, first come first.
    pub open spec fn drain(self, now: u64) -> MonitorView
        decreases self.finished.len(),
    {
        if self.finished.len() == 0 {
            self
        } else {
            MonitorView { finished: self.finished.drop_first(), ..self }.settle(
                self.finished[0],
                now,
            ).drain(now)
        }
    }

    /// Whether the monitor takes its terminal state at the end of a cycle
    /// that judged a child or, with `judged` false, did not. It does once
    /// nothing runs and no child is left stopping. While children are left
    /// stopping it does so only where a child was judged and the monitor is
    /// not stopping: a stopping monitor waits for the last of them.
    pub open spec fn settled(self, judged: bool) -> bool {
        self.running.len() == 0 && (self.stopping.len() == 0 || (judged && self.state
            != Status::Stopping))
    }

    /// The end of a cycle: the monitor takes its terminal state where it has
    /// settled.
    pub open spec fn commit(self, judged: bool) -> MonitorView {
        if self.settled(judged) {
            MonitorView { state: spec_finished_state(self.state), ..self }
        } else {
            self
        }
    }

    /// One cycle at `now`, given the exits observed: the children reported
    /// leave their cohorts, each is judged, and the monitor takes its
    /// terminal state where it has settled.
    pub open spec fn cycle(self, exits: Seq<ChildExit>, now: u64) -> MonitorView {
        let reaped = self.reap(exits, now);
        reaped.drain(now).commit(reaped.finished.len() > 0)
    }
}

/// The running children that stay are among those that were there, in
/// their order.
pub proof fn lemma_kept_running_within(s: Seq<RunningChild>, exits: Seq<ChildExit>, lo: int, hi: int)
    requires
        running_within(s, lo, hi),
    ensures
        running_within(kept_running(s, exits), lo, hi),
        kept_running(s, exits).len() <= s.len(),
        kept_running(s, exits).len() > 0 ==> kept_running(s, exits).last().id <= s.last().id,
    decreases s.len(),
{
    if s.len() > 0 {
        let front = s.drop_last();
        assert forall|i: int| 0 <= i < front.len() implies lo <= (#[trigger] front[i]).id < hi by {
            assert(front[i] == s[i]);
        }
        assert forall|i: int, j: int| 0 <= i < j < front.len() implies (#[trigger] front[i]).id < (
        #[trigger] front[j]).id by {
            assert(front[i] == s[i]);
            assert(front[j] == s[j]);
        }
        lemma_kept_running_within(front, exits, lo, hi);
        let before = kept_running(front, exits);
        if before.len() > 0 {
            assert(front.last() == s[s.len() - 2]);
            assert(before.last() == before[before.len() - 1]);
        }
    }
}

/// The running children that stay carry the settings they had.
pub proof fn lemma_kept_running_of_task(s: Seq<RunningChild>, exits: Seq<ChildExit>, task: TaskView)
    requires
        running_of_task(s, task),
    ensures
        running_of_task(kept_running(s, exits), task),
    decreases s.len(),
{
    if s.len() > 0 {
        let front = s.drop_last();
        assert forall|i: int| 0 <= i < front.len() implies (#[trigger] front[i]) == new_child(
            task,
            front[i].id,
            front[i].started_at,
        ) by {
            assert(front[i] == s[i]);
        }
        lemma_kept_running_of_task(front, exits, task);
        assert(s.last() == s[s.len() - 1]);
    }
}

/// The stopping children that stay are among those that were there, in
/// their order.
pub proof fn lemma_kept_stopping_within(s: Seq<StoppingChild>, exits: Seq<ChildExit>, lo: int, hi: int)
    requires
        stopping_within(s, lo, hi),
    ensures
        stopping_within(kept_stopping(s, exits), lo, hi),
        kept_stopping(s, exits).len() <= s.len(),
        kept_stopping(s, exits).len() > 0 ==> kept_stopping(s, exits).last().id <= s.last().id,
    decreases s.len(),
{
    if s.len() > 0 {
        let front = s.drop_last();
        assert forall|i: int| 0 <= i < front.len() implies lo <= (#[trigger] front[i]).id < hi by {
            assert(front[i] == s[i]);
        }
        assert forall|i: int, j: int| 0 <= i < j < front.len() implies (#[trigger] front[i]).id < (
        #[trigger] front[j]).id by {
            assert(front[i] == s[i]);
            assert(front[j] == s[j]);
        }
        lemma_kept_stopping_within(front, exits, lo, hi);
        let before = kept_stopping(front, exits);
        if before.len() > 0 {
            assert(front.last() == s[s.len() - 2]);
            assert(before.last() == before[before.len() - 1]);
        }
    }
}

/// Spawning keeps a monitor sound.
pub proof fn lemma_spawn_sound(m: MonitorView, count: nat, now: u64)
    requires
        m.sound(),
        m.has_room(count),
    ensures
        m.spawn(count, now).sound(),
{
    let after = m.spawn(count, now);
    let added = new_children(m.task, m.spawned_children, count, now);
    assert forall|i: int| 0 <= i < after.running.len() implies (#[trigger] after.running[i])
        == new_child(after.task, after.running[i].id, after.running[i].started_at) by {
        if i < m.running.len() {
            assert(after.running[i] == m.running[i]);
        } else {
            assert(after.running[i] == added[i - m.running.len()]);
        }
    }
    assert forall|i: int| 0 <= i < after.running.len() implies 0 <= (#[trigger] after.running[i]).id
        < after.spawned_children by {
        if i < m.running.len() {
            assert(after.running[i] == m.running[i]);
        } else {
            assert(after.running[i] == added[i - m.running.len()]);
        }
    }
    assert forall|i: int, j: int| 0 <= i < j < after.running.len() implies (
    #[trigger] after.running[i]).id < (#[trigger] after.running[j]).id by {
        if j < m.running.len() {
            assert(after.running[i] == m.running[i]);
            assert(after.running[j] == m.running[j]);
        } else if i < m.running.len() {
            assert(after.running[i] == m.running[i]);
            assert(after.running[j] == added[j - m.running.len()]);
        } else {
            assert(after.running[i] == added[i - m.running.len()]);
            assert(after.running[j] == added[j - m.running.len()]);
        }
    }
    assert forall|i: int, j: int|
        0 <= i < after.stopping.len() && 0 <= j < after.running.len() implies (
    #[trigger] after.stopping[i]).id < (#[trigger] after.running[j]).id by {
        if j < m.running.len() {
            assert(after.running[j] == m.running[j]);
        } else {
            assert(after.running[j] == added[j - m.running.len()]);
        }
    }
}

/// A start keeps a monitor well formed.
pub proof fn lemma_start_wf(m: MonitorView, now: u64)
    requires
        m.wf(),
    ensures
        m.start_raw(now).wf(),
        m.start(now).wf(),
{
    if m.has_room(m.task.numprocess as nat) {
        lemma_spawn_sound(m, m.task.numprocess as nat, now);
    }
}

/// A stop keeps a monitor well formed.
pub proof fn lemma_stop_wf(m: MonitorView, now: u64)
    requires
        m.wf(),
    ensures
        m.stop(now).wf(),
{
    let after = m.stop(now);
    let moved = stopped_all(m.running, now);
    assert forall|i: int| 0 <= i < after.stopping.len() implies 0 <= (#[trigger] after.stopping[i]).id
        < after.spawned_children by {
        if i < m.stopping.len() {
            assert(after.stopping[i] == m.stopping[i]);
        } else {
            assert(after.stopping[i] == moved[i - m.stopping.len()]);
            assert(moved[i - m.stopping.len()].id == m.running[i - m.stopping.len()].id);
        }
    }
    assert forall|i: int, j: int| 0 <= i < j < after.stopping.len() implies (
    #[trigger] after.stopping[i]).id < (#[trigger] after.stopping[j]).id by {
        if j < m.stopping.len() {
            assert(after.stopping[i] == m.stopping[i]);
            assert(after.stopping[j] == m.stopping[j]);
        } else if i < m.stopping.len() {
            assert(after.stopping[i] == m.stopping[i]);
            assert(after.stopping[j].id == m.running[j - m.stopping.len()].id);
        } else {
            assert(after.stopping[i].id == m.running[i - m.stopping.len()].id);
            assert(after.stopping[j].id == m.running[j - m.stopping.len()].id);
        }
    }
}

/// A reload with a well-formed task keeps a monitor well formed.
pub proof fn lemma_reload_wf(m: MonitorView, task: TaskView, now: u64)
    requires
        m.wf(),
        task.wf(),
    ensures
        m.reload(task, now).wf(),
{
    if m.task != task {
        let halted = if m.running.len() > 0 {
            m.stop(now)
        } else {
            m
        };
        lemma_stop_wf(m, now);
        let replaced = MonitorView { task, retry_count: 0, state: Status::Reloading, ..halted };
        assert(replaced.wf());
        lemma_start_wf(replaced, now);
    }
}

/// Judging one exit keeps a monitor sound.
pub proof fn lemma_settle_sound(m: MonitorView, child: FinishedChild, now: u64)
    requires
        m.sound(),
    ensures
        m.settle(child, now).sound(),
        m.settle(child, now).finished == m.finished,
        m.settle(child, now).task == m.task,
        m.settle(child, now).id == m.id,
        m.settle(child, now).spawned_children >= m.spawned_children,
{
    if m.has_room(1) {
        lemma_spawn_sound(m, 1, now);
    }
}

/// Judging every exit keeps a monitor sound, and leaves none to judge.
pub proof fn lemma_drain_sound(m: MonitorView, now: u64)
    requires
        m.sound(),
    ensures
        m.drain(now).sound(),
        m.drain(now).finished.len() == 0,
        m.drain(now).task == m.task,
        m.drain(now).id == m.id,
        m.drain(now).spawned_children >= m.spawned_children,
    decreases m.finished.len(),
{
    if m.finished.len() > 0 {
        let rest = MonitorView { finished: m.finished.drop_first(), ..m };
        lemma_settle_sound(rest, m.finished[0], now);
        lemma_drain_sound(rest.settle(m.finished[0], now), now);
    }
}

/// Reaping keeps a monitor sound.
pub proof fn lemma_reap_sound(m: MonitorView, exits: Seq<ChildExit>, now: u64)
    requires
        m.sound(),
    ensures
        m.reap(exits, now).sound(),
{
    let after = m.reap(exits, now);
    let top = m.spawned_children as int;
    let mid = if m.running.len() > 0 {
        m.running[0].id as int
    } else {
        top
    };
    assert(running_within(m.running, mid, top)) by {
        assert forall|i: int| 0 <= i < m.running.len() implies mid <= (#[trigger] m.running[i]).id
            < top by {
            if i > 0 {
                assert(m.running[0].id < m.running[i].id);
            }
        }
    }
    assert(stopping_within(m.stopping, 0, mid)) by {
        assert forall|i: int| 0 <= i < m.stopping.len() implies 0 <= (#[trigger] m.stopping[i]).id
            < mid by {
            if m.running.len() > 0 {
                assert(m.stopping[i].id < m.running[0].id);
            }
        }
    }
    lemma_kept_running_of_task(m.running, exits, m.task);
    lemma_kept_running_within(m.running, exits, mid, top);
    lemma_kept_stopping_within(m.stopping, exits, 0, mid);
    lemma_kept_running_within(m.running, exits, 0, top);
    lemma_kept_stopping_within(m.stopping, exits, 0, top);
}

/// A cycle keeps a monitor well formed.
pub proof fn lemma_cycle_wf(m: MonitorView, exits: Seq<ChildExit>, now: u64)
    requires
        m.wf(),
    ensures
        m.cycle(exits, now).wf(),
        m.cycle(exits, now).task == m.task,
        m.cycle(exits, now).id == m.id,
        m.cycle(exits, now).spawned_children >= m.spawned_children,
{
    lemma_reap_sound(m, exits, now);
    lemma_drain_sound(m.reap(exits, now), now);
}

} // verus!

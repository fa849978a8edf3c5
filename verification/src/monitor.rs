//! The supervisor of one task: it keeps the task's children by cohort,
//! decides what to spawn, signal and kill, and moves through the states
//! of the state machine.
//!
//! A monitor touches no process itself. Each transition returns the orders
//! that the caller is to carry out, and a cycle takes the exits that the
//! caller has observed.

use crate::child::{
    overdue_children, reap_running, reap_stopping, seconds, stop_signals, stopped_all, due_for_kill,
    ChildExit, FinishedChild, RunningChild, SignalOrder, StoppingChild,
};
use crate::model::{
    classify, lemma_cycle_wf, lemma_reload_wf, lemma_start_wf, lemma_stop_wf, new_child, restart_wanted,
    MonitorView,
};
use crate::relaunch::Relaunch;
use crate::status::{finished_state, startable_state, Status};
use crate::task::{spec_command, Command, Task, TaskView};
use vstd::prelude::*;

verus! {

/// The request to spawn one child: its number, and the command to run.
#[derive(Debug)]
pub struct SpawnOrder {
    pub child: u32,
    pub command: Command,
}

/// Whether `orders` asks for `count` children of `task`, numbered from
/// `first` on in order, each with the command that the task gives for its
/// number at `timestamp`.
pub open spec fn orders_match(
    orders: Seq<SpawnOrder>,
    task: TaskView,
    first: u32,
    count: int,
    timestamp: u64,
) -> bool {
    &&& orders.len() == count
    &&& forall|k: int|
        0 <= k < count ==> (#[trigger] orders[k]).child == first + k && spec_command(
            task,
            (first + k) as u32,
            timestamp,
            orders[k].command,
        )
}

/// The supervisor of one task.
#[derive(Debug)]
pub struct Monitor {
    id: String,
    task: Task,
    retry_count: u32,
    spawned_children: u32,
    state: Status,
    running: Vec<RunningChild>,
    stopping: Vec<StoppingChild>,
    finished: Vec<FinishedChild>,
}

impl View for Monitor {
    type V = MonitorView;

    closed spec fn view(&self) -> MonitorView {
        MonitorView {
            id: self.id@,
            task: self.task@,
            retry_count: self.retry_count,
            spawned_children: self.spawned_children,
            state: self.state,
            running: self.running@,
            stopping: self.stopping@,
            finished: self.finished@,
        }
    }
}

/// Describes the child of `task` that is spawned at `now` under the number
/// `id`.
pub fn spawn_child(task: &Task, id: u32, now: u64) -> (r: RunningChild)
    ensures
        r == new_child(task@, id, now),
{
    RunningChild::new(
        id,
        now,
        seconds(task.successdelay()),
        task.stopsignal(),
        seconds(task.stopdelay()),
    )
}

impl Monitor {
    /// Whether the monitor is in a state that its transitions keep.
    pub open spec fn wf(&self) -> bool {
        self@.wf()
    }

    /// The monitor of `task`, not started.
    pub fn new_only(id: String, task: Task) -> (m: Monitor)
        ensures
            m@ == MonitorView::fresh(id@, task@),
            m.wf(),
    {
        proof {
            use_type_invariant(&task);
        }
        Monitor {
            id,
            task,
            retry_count: 0,
            spawned_children: 0,
            state: Status::Inactive,
            running: Vec::new(),
            stopping: Vec::new(),
            finished: Vec::new(),
        }
    }

    /// The monitor of `task`, started at `now` where the task starts by
    /// itself, with the orders to spawn its children.
    pub fn new(id: String, task: Task, now: u64, timestamp: u64) -> (r: (Monitor, Vec<SpawnOrder>))
        ensures
            r.0.wf(),
            r.0@ == (if task@.autostart {
                MonitorView::fresh(id@, task@).start(now)
            } else {
                MonitorView::fresh(id@, task@)
            }),
            orders_match(r.1@, task@, 0, r.0@.spawned_children as int, timestamp),
    {
        let mut mon = Monitor::new_only(id, task);
        let orders = if mon.task.autostart() {
            mon.start(now, timestamp)
        } else {
            Vec::new()
        };
        (mon, orders)
    }

    fn change_state(&mut self, status: Status)
        ensures
            final(self)@ == (MonitorView { state: status, ..old(self)@ }),
    {
        self.state = status;
    }

    /// Starts the task at `now` where its state allows it, and returns the
    /// orders to spawn its children; in any other state nothing changes.
    pub fn start(&mut self, now: u64, timestamp: u64) -> (orders: Vec<SpawnOrder>)
        requires
            old(self).wf(),
        ensures
            final(self).wf(),
            final(self)@ == old(self)@.start(now),
            orders_match(
                orders@,
                old(self)@.task,
                old(self)@.spawned_children,
                final(self)@.spawned_children - old(self)@.spawned_children,
                timestamp,
            ),
    {
        proof {
            lemma_start_wf(self@, now);
        }
        let current_status = self.status();
        if startable_state(current_status) {
            self.start_raw(now, timestamp)
        } else {
            Vec::new()
        }
    }

    fn start_raw(&mut self, now: u64, timestamp: u64) -> (orders: Vec<SpawnOrder>)
        requires
            old(self)@.task.wf(),
        ensures
            final(self)@ == old(self)@.start_raw(now),
            orders_match(
                orders@,
                old(self)@.task,
                old(self)@.spawned_children,
                final(self)@.spawned_children - old(self)@.spawned_children,
                timestamp,
            ),
    {
        self.retry_count = 0;
        if self.task.numprocess() > u32::MAX - self.spawned_children {
            self.change_state(Status::Failed);
            return Vec::new();
        }
        let orders = self.spawn_children(now, timestamp);
        self.change_state(Status::Active);
        orders
    }

    fn spawn_children(&mut self, now: u64, timestamp: u64) -> (orders: Vec<SpawnOrder>)
        requires
            old(self)@.task.wf(),
            old(self)@.has_room(old(self)@.task.numprocess as nat),
        ensures
            final(self)@ == old(self)@.spawn(old(self)@.task.numprocess as nat, now),
            orders_match(
                orders@,
                old(self)@.task,
                old(self)@.spawned_children,
                old(self)@.task.numprocess as int,
                timestamp,
            ),
    {
        let num_process = self.task.numprocess();
        let ghost before = self@;
        let mut orders: Vec<SpawnOrder> = Vec::new();
        let mut k: u32 = 0;
        proof {
            assert(self@.running =~= before.spawn(0, now).running);
        }
        while k < num_process
            invariant
                k <= num_process,
                num_process == before.task.numprocess,
                before.task.wf(),
                before.has_room(num_process as nat),
                self@ == before.spawn(k as nat, now),
                orders_match(orders@, before.task, before.spawned_children, k as int, timestamp),
            decreases num_process - k,
        {
            let ghost so_far = self@;
            let ghost asked = orders@;
            let id = self.increase_spawned_children_counter();
            let command = self.task.get_command(id, timestamp);
            let running_child = spawn_child(&self.task, id, now);
            self.running.push(running_child);
            orders.push(SpawnOrder { child: id, command });
            k += 1;
            proof {
                assert(self@.running =~= before.spawn(k as nat, now).running);
                assert forall|j: int| 0 <= j < k implies (#[trigger] orders@[j]).child
                    == before.spawned_children + j && spec_command(
                    before.task,
                    (before.spawned_children + j) as u32,
                    timestamp,
                    orders@[j].command,
                ) by {
                    if j < k - 1 {
                        assert(orders@[j] == asked[j]);
                    }
                }
            }
        }
        orders
    }

    pub fn status(&self) -> (r: Status)
        ensures
            r == self@.state,
    {
        self.state
    }

    pub fn id(&self) -> (r: &String)
        ensures
            r@ == self@.id,
    {
        &self.id
    }

    pub fn retry_count(&self) -> (r: u32)
        ensures
            r == self@.retry_count,
    {
        self.retry_count
    }

    pub fn spawned_children(&self) -> (r: u32)
        ensures
            r == self@.spawned_children,
    {
        self.spawned_children
    }

    pub fn running(&self) -> (r: &Vec<RunningChild>)
        ensures
            r@ == self@.running,
    {
        &self.running
    }

    pub fn stopping(&self) -> (r: &Vec<StoppingChild>)
        ensures
            r@ == self@.stopping,
    {
        &self.stopping
    }

    /// Takes `task` in place of the monitor's own where the two differ:
    /// the running children are asked to stop, and new ones are spawned
    /// where the new task starts by itself or children were running.
    /// Returns the signals to send and the children to spawn.
    pub fn reload(&mut self, task: Task, now: u64, timestamp: u64) -> (orders: (
        Vec<SignalOrder>,
        Vec<SpawnOrder>,
    ))
        requires
            old(self).wf(),
        ensures
            final(self).wf(),
            final(self)@ == old(self)@.reload(task@, now),
            orders.0@ == (if old(self)@.task == task@ {
                Seq::<SignalOrder>::empty()
            } else {
                stop_signals(old(self)@.running)
            }),
            orders_match(
                orders.1@,
                task@,
                old(self)@.spawned_children,
                final(self)@.spawned_children - old(self)@.spawned_children,
                timestamp,
            ),
    {
        proof {
            use_type_invariant(&task);
            lemma_reload_wf(self@, task@, now);
        }
        if !self.task.same(&task) {
            let need_to_start = task.autostart() || !self.running.is_empty();
            self.change_state(Status::Reloading);
            let signals = if !self.running.is_empty() {
                self.stop(now)
            } else {
                assert(self@.running =~= Seq::<RunningChild>::empty());
                assert(stop_signals(self@.running) =~= Seq::<SignalOrder>::empty());
                Vec::new()
            };
            self.task = task;
            self.retry_count = 0;
            self.change_state(Status::Reloading);
            let spawns = if need_to_start {
                self.start_raw(now, timestamp)
            } else {
                self.change_state(Status::Inactive);
                Vec::new()
            };
            (signals, spawns)
        } else {
            (Vec::new(), Vec::new())
        }
    }

    /// Asks every running child to stop at `now`: each moves to the
    /// stopping cohort, and the signals to send are returned, one for each
    /// child in order.
    pub fn stop(&mut self, now: u64) -> (signals: Vec<SignalOrder>)
        ensures
            old(self).wf() ==> final(self).wf(),
            final(self)@ == old(self)@.stop(now),
            signals@ == stop_signals(old(self)@.running),
    {
        proof {
            if self.wf() {
                lemma_stop_wf(self@, now);
            }
        }
        let ghost before = self@;
        self.change_state(Status::Stopping);
        let mut signals: Vec<SignalOrder> = Vec::new();
        let mut i: usize = 0;
        while i < self.running.len()
            invariant
                i <= self.running.len(),
                self@ == (MonitorView {
                    state: Status::Stopping,
                    stopping: before.stopping + stopped_all(before.running, now).take(i as int),
                    ..before
                }),
                signals@ == stop_signals(before.running).take(i as int),
            decreases self.running.len() - i,
        {
            let chld = self.running[i];
            let (stopping_child, signal) = chld.stop(now);
            self.stopping.push(stopping_child);
            signals.push(signal);
            i += 1;
            proof {
                assert(self@.stopping =~= before.stopping + stopped_all(before.running, now).take(
                    i as int,
                ));
                assert(signals@ =~= stop_signals(before.running).take(i as int));
            }
        }
        self.running.clear();
        proof {
            assert(stopped_all(before.running, now).take(i as int) =~= stopped_all(
                before.running,
                now,
            ));
            assert(signals@ =~= stop_signals(before.running));
            assert(self@.running =~= Seq::<RunningChild>::empty());
        }
        signals
    }

    pub fn get_task(&self) -> (r: &Task)
        ensures
            r@ == self@.task,
    {
        &self.task
    }

    /// Whether the monitor has a child that has not been seen to exit.
    pub fn is_running(&self) -> (r: bool)
        ensures
            r == (self@.running.len() > 0 || self@.stopping.len() > 0),
    {
        !self.running.is_empty() || !self.stopping.is_empty()
    }

    /// Whether every child of the monitor has been seen to exit.
    pub fn has_finished(&self) -> (r: bool)
        ensures
            r == (self@.running.len() == 0 && self@.stopping.len() == 0),
    {
        self.running.is_empty() && self.stopping.is_empty()
    }

    /// Lists the children to kill at `now`: the stopping ones that `exits`
    /// does not report and whose delay to exit is over.
    pub fn kill_orders(&self, exits: &Vec<ChildExit>, now: u64) -> (r: Vec<u32>)
        ensures
            r@ == due_for_kill(self@.stopping, exits@, now),
    {
        overdue_children(&self.stopping, exits, now)
    }

    /// One cycle at `now`. The children that `exits` reports leave their
    /// cohorts and are judged in turn, which may call for restarts; where
    /// the monitor has settled afterwards it takes its terminal state.
    /// Returns the orders to spawn the children that restart.
    pub fn cycle(&mut self, exits: &Vec<ChildExit>, now: u64, timestamp: u64) -> (orders: Vec<
        SpawnOrder,
    >)
        requires
            old(self).wf(),
        ensures
            final(self).wf(),
            final(self)@ == old(self)@.cycle(exits@, now),
            orders_match(
                orders@,
                old(self)@.task,
                old(self)@.spawned_children,
                final(self)@.spawned_children - old(self)@.spawned_children,
                timestamp,
            ),
    {
        proof {
            lemma_cycle_wf(self@, exits@, now);
        }
        let ghost before = self@;
        self.cycle_running(exits, now);
        self.cycle_stopping(exits, now);
        proof {
            assert(self@.finished =~= before.reap(exits@, now).finished);
        }
        self.cycle_finished(now, timestamp)
    }

    fn cycle_running(&mut self, exits: &Vec<ChildExit>, now: u64)
        ensures
            final(self)@ == (MonitorView {
                running: crate::child::kept_running(old(self)@.running, exits@),
                finished: old(self)@.finished + crate::child::reaped_running(
                    old(self)@.running,
                    exits@,
                    now,
                ),
                ..old(self)@
            }),
    {
        let (kept, mut done) = reap_running(&self.running, exits, now);
        self.running = kept;
        self.finished.append(&mut done);
    }

    fn cycle_stopping(&mut self, exits: &Vec<ChildExit>, now: u64)
        ensures
            final(self)@ == (MonitorView {
                stopping: crate::child::kept_stopping(old(self)@.stopping, exits@),
                finished: old(self)@.finished + crate::child::reaped_stopping(
                    old(self)@.stopping,
                    exits@,
                    now,
                ),
                ..old(self)@
            }),
    {
        let (kept, mut done) = reap_stopping(&self.stopping, exits, now);
        self.stopping = kept;
        self.finished.append(&mut done);
    }

    fn cycle_finished(&mut self, now: u64, timestamp: u64) -> (orders: Vec<SpawnOrder>)
        requires
            old(self)@.task.wf(),
        ensures
            final(self)@ == old(self)@.drain(now).commit(old(self)@.finished.len() > 0),
            orders_match(
                orders@,
                old(self)@.task,
                old(self)@.spawned_children,
                final(self)@.spawned_children - old(self)@.spawned_children,
                timestamp,
            ),
    {
        let ghost before = self@;
        let judged = self.finished.len() > 0;
        let mut orders: Vec<SpawnOrder> = Vec::new();
        while self.finished.len() > 0
            invariant
                self@.drain(now) == before.drain(now),
                self@.task == before.task,
                before.task.wf(),
                self@.spawned_children >= before.spawned_children,
                orders_match(
                    orders@,
                    before.task,
                    before.spawned_children,
                    self@.spawned_children - before.spawned_children,
                    timestamp,
                ),
            decreases self.finished.len(),
        {
            let ghost at_entry = self@;
            let ghost asked = orders@;
            let e = self.finished.remove(0);
            proof {
                assert(self@.finished =~= at_entry.finished.drop_first());
                assert(e == at_entry.finished[0]);
            }
            let ghost rest = self@;
            let status = self.check_finished_child(&e);
            match status {
                Status::Failed => {
                    if self.state != Status::Stopping {
                        self.change_state(Status::Failing)
                    }
                },
                _ => {},
            }
            if self.should_process_restarted(status) {
                match self.restart_task(now, timestamp) {
                    Some(order) => {
                        orders.push(order);
                        proof {
                            let count = self@.spawned_children - before.spawned_children;
                            assert forall|j: int| 0 <= j < count implies (#[trigger] orders@[j]).child
                                == before.spawned_children + j && spec_command(
                                before.task,
                                (before.spawned_children + j) as u32,
                                timestamp,
                                orders@[j].command,
                            ) by {
                                if j < count - 1 {
                                    assert(orders@[j] == asked[j]);
                                }
                            }
                        }
                    },
                    None => {},
                }
            }
            proof {
                assert(self@ == rest.settle(e, now));
            }
        }
        if self.running.is_empty() && (self.stopping.is_empty() || (judged && self.state
            != Status::Stopping)) {
            self.change_state(finished_state(self.state));
        }
        orders
    }

    fn should_process_restarted(&self, status: Status) -> (r: bool)
        ensures
            r == restart_wanted(self@.task, self@.retry_count, status),
    {
        (self.retry_count < self.task.retry()) && ((status == Status::Failed && self.task.restart()
            == Relaunch::OnError) || (status == Status::Finished && self.task.restart()
            == Relaunch::Always))
    }

    /// Judges the exit of `child`.
    pub fn check_finished_child(&self, child: &FinishedChild) -> (r: Status)
        ensures
            r == classify(self@.task, *child),
            r == Status::Failed || r == Status::Finished,
    {
        match child.status {
            None => Status::Failed,
            Some(code) => {
                if self.unexpected_exit_code(code) {
                    Status::Failed
                } else if child.execution_time < child.startup_time {
                    Status::Failed
                } else {
                    Status::Finished
                }
            },
        }
    }

    fn unexpected_exit_code(&self, code: i32) -> (r: bool)
        ensures
            r == !self@.task.exitcodes.contains(code),
    {
        !self.task.expects_exit_code(code)
    }

    fn restart_task(&mut self, now: u64, timestamp: u64) -> (order: Option<SpawnOrder>)
        requires
            old(self)@.task.wf(),
            old(self)@.retry_count < old(self)@.task.retry,
        ensures
            old(self)@.has_room(1) ==> final(self)@ == (MonitorView {
                retry_count: (old(self)@.retry_count + 1) as u32,
                ..old(self)@.spawn(1, now)
            }) && order.is_some() && order.unwrap().child == old(self)@.spawned_children
                && spec_command(
                old(self)@.task,
                old(self)@.spawned_children,
                timestamp,
                order.unwrap().command,
            ),
            !old(self)@.has_room(1) ==> final(self)@ == (MonitorView {
                state: crate::model::after_failure(old(self)@.state),
                ..old(self)@
            }) && order.is_none(),
    {
        if self.spawned_children == u32::MAX {
            if self.state != Status::Stopping {
                self.change_state(Status::Failing);
            }
            return None;
        }
        let ghost before = self@;
        let id = self.increase_spawned_children_counter();
        let command = self.task.get_command(id, timestamp);
        self.retry_count += 1;
        let running_child = spawn_child(&self.task, id, now);
        self.running.push(running_child);
        proof {
            assert(self@.running =~= before.spawn(1, now).running);
        }
        Some(SpawnOrder { child: id, command })
    }

    fn increase_spawned_children_counter(&mut self) -> (id: u32)
        requires
            old(self)@.spawned_children < u32::MAX,
        ensures
            id == old(self)@.spawned_children,
            final(self)@ == (MonitorView {
                spawned_children: (old(self)@.spawned_children + 1) as u32,
                ..old(self)@
            }),
    {
        let current_value = self.spawned_children;
        self.spawned_children += 1;
        current_value
    }
}

} // verus!

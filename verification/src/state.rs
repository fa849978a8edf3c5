//! The registry of monitors, one for each task that a configuration has
//! named, and the requests it serves.

use crate::child::{due_for_kill, stop_signals, ChildExit, SignalOrder};
use crate::formatter::{is_unknown_taskid, unknown_taskid, Reply};
use crate::model::MonitorView;
use crate::monitor::{orders_match, Monitor, SpawnOrder};
use crate::status::{running_state, spec_running_state};
use crate::task::{Task, TaskView};
use crate::text::same_text;
use vstd::prelude::*;
use vstd::string::*;

verus! {

/// What is to be done to the children of one task: the signals to send
/// and the children to spawn.
#[derive(Debug)]
pub struct Orders {
    pub taskid: String,
    pub signals: Vec<SignalOrder>,
    pub spawns: Vec<SpawnOrder>,
}

/// The place of the first monitor named `id`, if there is one.
pub open spec fn position(monitors: Seq<MonitorView>, id: Seq<char>) -> Option<int>
    decreases monitors.len(),
{
    if monitors.len() == 0 {
        None
    } else if monitors[0].id == id {
        Some(0int)
    } else {
        match position(monitors.drop_first(), id) {
            Some(k) => Some(k + 1),
            None => None,
        }
    }
}

/// Whether the monitor at `k` is the first one named `id`.
pub open spec fn first_named(monitors: Seq<MonitorView>, id: Seq<char>, k: int) -> bool {
    &&& 0 <= k < monitors.len()
    &&& monitors[k].id == id
    &&& forall|j: int| 0 <= j < k ==> (#[trigger] monitors[j]).id != id
}

/// Whether no monitor is named `id`.
pub open spec fn none_named(monitors: Seq<MonitorView>, id: Seq<char>) -> bool {
    forall|j: int| 0 <= j < monitors.len() ==> (#[trigger] monitors[j]).id != id
}

/// `position` finds the first monitor of the name, and nothing where there
/// is none.
pub proof fn lemma_position(monitors: Seq<MonitorView>, id: Seq<char>)
    ensures
        match position(monitors, id) {
            Some(k) => first_named(monitors, id, k),
            None => none_named(monitors, id),
        },
    decreases monitors.len(),
{
    if monitors.len() > 0 && monitors[0].id != id {
        let rest = monitors.drop_first();
        lemma_position(rest, id);
        match position(rest, id) {
            Some(k) => {
                assert(rest[k] == monitors[k + 1]);
                assert forall|j: int| 0 <= j < k + 1 implies (#[trigger] monitors[j]).id != id by {
                    if j > 0 {
                        assert(rest[j - 1] == monitors[j]);
                    }
                }
            },
            None => {
                assert forall|j: int| 0 <= j < monitors.len() implies (#[trigger] monitors[j]).id
                    != id by {
                    if j > 0 {
                        assert(rest[j - 1] == monitors[j]);
                    }
                }
            },
        }
    }
}

/// The first monitor of a name is where `position` says.
pub proof fn lemma_position_is(monitors: Seq<MonitorView>, id: Seq<char>, k: int)
    requires
        first_named(monitors, id, k),
    ensures
        position(monitors, id) == Some(k),
{
    lemma_position(monitors, id);
    match position(monitors, id) {
        Some(other) => {
            if other < k {
                assert(monitors[other].id != id);
            } else if k < other {
                assert(monitors[k].id != id);
            }
        },
        None => {
            assert(monitors[k].id != id);
        },
    }
}

/// Where no monitor has the name, `position` finds none.
pub proof fn lemma_position_none(monitors: Seq<MonitorView>, id: Seq<char>)
    requires
        none_named(monitors, id),
    ensures
        position(monitors, id).is_none(),
{
    lemma_position(monitors, id);
    match position(monitors, id) {
        Some(other) => {
            assert(monitors[other].id != id);
        },
        None => {},
    }
}

/// Whether every monitor is well formed and no two have one name.
pub open spec fn registry_wf(monitors: Seq<MonitorView>) -> bool {
    &&& forall|i: int| 0 <= i < monitors.len() ==> (#[trigger] monitors[i]).wf()
    &&& forall|i: int, j: int|
        0 <= i < j < monitors.len() ==> (#[trigger] monitors[i]).id != (#[trigger] monitors[j]).id
}

/// The registry once the task `id` was asked to start at `now`.
pub open spec fn started(monitors: Seq<MonitorView>, id: Seq<char>, now: u64) -> Seq<MonitorView> {
    match position(monitors, id) {
        Some(k) => monitors.update(k, monitors[k].start(now)),
        None => monitors,
    }
}

/// The registry once the task `id` was asked to stop at `now`.
pub open spec fn stopped(monitors: Seq<MonitorView>, id: Seq<char>, now: u64) -> Seq<MonitorView> {
    match position(monitors, id) {
        Some(k) => monitors.update(k, monitors[k].stop(now)),
        None => monitors,
    }
}

/// The registry once the task `id` went through a cycle at `now`.
pub open spec fn cycled(monitors: Seq<MonitorView>, id: Seq<char>, exits: Seq<ChildExit>, now: u64) -> Seq<
    MonitorView,
> {
    match position(monitors, id) {
        Some(k) => monitors.update(k, monitors[k].cycle(exits, now)),
        None => monitors,
    }
}

/// The monitor that a configuration's new task gets: started at once where
/// the task starts by itself.
pub open spec fn admitted(id: Seq<char>, task: TaskView, now: u64) -> MonitorView {
    if task.autostart {
        MonitorView::fresh(id, task).start(now)
    } else {
        MonitorView::fresh(id, task)
    }
}

/// The registry once it took the task `task` for the name `id`: the
/// monitor of that name reloads, and where there is none a new one joins.
pub open spec fn reloaded_one(monitors: Seq<MonitorView>, id: Seq<char>, task: TaskView, now: u64) -> Seq<
    MonitorView,
> {
    match position(monitors, id) {
        Some(k) => monitors.update(k, monitors[k].reload(task, now)),
        None => monitors.push(admitted(id, task, now)),
    }
}

/// The registry once it took every task of `config`, in order.
pub open spec fn reloaded(monitors: Seq<MonitorView>, config: Seq<(Seq<char>, TaskView)>, now: u64) -> Seq<
    MonitorView,
>
    decreases config.len(),
{
    if config.len() == 0 {
        monitors
    } else {
        reloaded_one(reloaded(monitors, config.drop_last(), now), config.last().0, config.last().1, now)
    }
}

/// The registry once the task `id` was asked to restart at `now`: a stop,
/// and a start at once.
pub open spec fn restarted(monitors: Seq<MonitorView>, id: Seq<char>, now: u64) -> Seq<MonitorView> {
    started(stopped(monitors, id, now), id, now)
}

/// Whether `answer` is what a request that changes the task `id` returns,
/// where `before` is the registry it met and `after` the one it left: the
/// error where no task has the name; else the orders for that task, with
/// the signals `signals`, and a spawn for each child that the change added,
/// by the settings `task`.
pub open spec fn answers(
    answer: Result<Orders, Reply>,
    before: Seq<MonitorView>,
    after: Seq<MonitorView>,
    id: Seq<char>,
    signals: Seq<SignalOrder>,
    timestamp: u64,
) -> bool {
    match position(before, id) {
        Some(k) => match answer {
            Ok(orders) => {
                &&& orders.taskid@ == id
                &&& orders.signals@ == signals
                &&& orders_match(
                    orders.spawns@,
                    before[k].task,
                    before[k].spawned_children,
                    after[k].spawned_children - before[k].spawned_children,
                    timestamp,
                )
            },
            Err(_) => false,
        },
        None => match answer {
            Ok(_) => false,
            Err(reply) => is_unknown_taskid(reply, id),
        },
    }
}

/// The signals that a stop of the task `id` sends.
pub open spec fn stop_signals_of(monitors: Seq<MonitorView>, id: Seq<char>) -> Seq<SignalOrder> {
    match position(monitors, id) {
        Some(k) => stop_signals(monitors[k].running),
        None => Seq::empty(),
    }
}

/// Whether `orders` is what taking the task `task` for the name `id`
/// orders, where `before` is the registry it met and `after` the one it
/// left.
pub open spec fn reload_orders(
    orders: Orders,
    before: Seq<MonitorView>,
    after: Seq<MonitorView>,
    id: Seq<char>,
    task: TaskView,
    timestamp: u64,
) -> bool {
    &&& orders.taskid@ == id
    &&& match position(before, id) {
        Some(k) => {
            &&& orders.signals@ == (if before[k].task == task {
                Seq::<SignalOrder>::empty()
            } else {
                stop_signals(before[k].running)
            })
            &&& orders_match(
                orders.spawns@,
                task,
                before[k].spawned_children,
                after[k].spawned_children - before[k].spawned_children,
                timestamp,
            )
        },
        None => {
            &&& orders.signals@.len() == 0
            &&& orders_match(orders.spawns@, task, 0, after.last().spawned_children as int, timestamp)
        },
    }
}

/// The registry once every task was asked to stop at `now`.
pub open spec fn stopped_every(monitors: Seq<MonitorView>, now: u64) -> Seq<MonitorView> {
    Seq::new(monitors.len(), |i: int| monitors[i].stop(now))
}

/// Whether `orders` asks the children of the monitor `before` to stop.
pub open spec fn stop_orders(orders: Orders, before: MonitorView) -> bool {
    &&& orders.taskid@ == before.id
    &&& orders.signals@ == stop_signals(before.running)
    &&& orders.spawns@.len() == 0
}

/// The tasks of the registry by name, in order.
pub open spec fn listing(monitors: Seq<MonitorView>) -> Seq<(Seq<char>, TaskView)> {
    Seq::new(monitors.len(), |i: int| (monitors[i].id, monitors[i].task))
}

/// Whether `reply` states the settings of the task `id`, or that no task
/// has the name.
pub open spec fn info_reply(reply: Reply, monitors: Seq<MonitorView>, id: Seq<char>) -> bool {
    match position(monitors, id) {
        Some(k) => match reply {
            Reply::Task { taskid, task } => taskid@ == id && task@ == monitors[k].task,
            _ => false,
        },
        None => is_unknown_taskid(reply, id),
    }
}

/// Whether `reply` states the state of the task `id`, or that no task has
/// the name.
pub open spec fn status_reply(reply: Reply, monitors: Seq<MonitorView>, id: Seq<char>) -> bool {
    match position(monitors, id) {
        Some(k) => match reply {
            Reply::Status { taskid, status } => taskid@ == id && status == monitors[k].state,
            _ => false,
        },
        None => is_unknown_taskid(reply, id),
    }
}

/// Whether `reply` lists the tasks of the registry.
pub open spec fn list_reply(reply: Reply, monitors: Seq<MonitorView>) -> bool {
    match reply {
        Reply::Tasks { tasks } => config_view(tasks@) == listing(monitors),
        _ => false,
    }
}

/// Whether the monitor is to go through the next cycle: it has a child
/// that was not seen to exit, or its state is one of those at work.
pub open spec fn needs_cycle(m: MonitorView) -> bool {
    m.running.len() > 0 || m.stopping.len() > 0 || spec_running_state(m.state)
}

/// The view of a configuration: each name with its task.
pub open spec fn config_view(config: Seq<(String, Task)>) -> Seq<(Seq<char>, TaskView)> {
    Seq::new(config.len(), |i: int| (config[i].0@, config[i].1@))
}

/// The names of the monitors that need a cycle, in order.
pub open spec fn working_names(monitors: Seq<MonitorView>) -> Seq<Seq<char>>
    decreases monitors.len(),
{
    if monitors.len() == 0 {
        Seq::empty()
    } else {
        let before = working_names(monitors.drop_last());
        if needs_cycle(monitors.last()) {
            before.push(monitors.last().id)
        } else {
            before
        }
    }
}

/// The registry of monitors.
#[derive(Debug)]
pub struct State {
    monitors: Vec<Monitor>,
}

impl View for State {
    type V = Seq<MonitorView>;

    closed spec fn view(&self) -> Seq<MonitorView> {
        Seq::new(self.monitors@.len(), |i: int| self.monitors@[i]@)
    }
}

impl State {
    /// Whether the registry is in a state that its requests keep.
    pub open spec fn wf(&self) -> bool {
        registry_wf(self@)
    }

    /// The registry without a monitor.
    pub fn new() -> (r: State)
        ensures
            r@.len() == 0,
            r.wf(),
    {
        State { monitors: Vec::new() }
    }

    /// How many monitors there are.
    pub fn len(&self) -> (r: usize)
        ensures
            r == self@.len(),
    {
        self.monitors.len()
    }

    /// The monitor at `index`.
    pub fn monitor(&self, index: usize) -> (r: &Monitor)
        requires
            index < self@.len(),
        ensures
            r@ == self@[index as int],
    {
        &self.monitors[index]
    }

    /// Finds the monitor of the task `name`.
    pub fn find(&self, name: &str) -> (r: Option<usize>)
        ensures
            match r {
                Some(k) => position(self@, name@) == Some(k as int) && k < self@.len(),
                None => position(self@, name@).is_none(),
            },
    {
        let mut i: usize = 0;
        while i < self.monitors.len()
            invariant
                i <= self.monitors.len(),
                forall|j: int| 0 <= j < i ==> (#[trigger] self@[j]).id != name@,
            decreases self.monitors.len() - i,
        {
            if same_text(self.monitors[i].id().as_str(), name) {
                proof {
                    lemma_position_is(self@, name@, i as int);
                }
                return Some(i);
            }
            i += 1;
        }
        proof {
            lemma_position_none(self@, name@);
        }
        None
    }

    /// Takes a configuration: each task in order reloads the monitor of
    /// its name, or gets a new monitor where the name is new. Returns the
    /// orders for each task, in the configuration's order.
    pub fn reload(&mut self, config: Vec<(String, Task)>, now: u64, timestamp: u64) -> (r: Vec<Orders>)
        requires
            old(self).wf(),
        ensures
            final(self).wf(),
            final(self)@ == reloaded(old(self)@, config_view(config@), now),
            r@.len() == config@.len(),
            forall|i: int|
                0 <= i < config@.len() ==> reload_orders(
                    #[trigger] r@[i],
                    reloaded(old(self)@, config_view(config@).take(i), now),
                    reloaded(old(self)@, config_view(config@).take(i + 1), now),
                    config@[i].0@,
                    config@[i].1@,
                    timestamp,
                ),
    {
        let ghost start = self@;
        let ghost full = config_view(config@);
        let ghost total = config@.len();
        let mut config = config;
        let mut all: Vec<Orders> = Vec::new();
        proof {
            assert(full.take(0) =~= Seq::<(Seq<char>, TaskView)>::empty());
            assert(config_view(config@) =~= full.skip(0));
        }
        while config.len() > 0
            invariant
                self.wf(),
                all@.len() + config@.len() == total,
                total == full.len(),
                config_view(config@) == full.skip(all@.len() as int),
                self@ == reloaded(start, full.take(all@.len() as int), now),
                forall|i: int|
                    0 <= i < all@.len() ==> reload_orders(
                        #[trigger] all@[i],
                        reloaded(start, full.take(i), now),
                        reloaded(start, full.take(i + 1), now),
                        full[i].0,
                        full[i].1,
                        timestamp,
                    ),
            decreases config.len(),
        {
            let ghost done = all@.len() as int;
            let ghost left = config@;
            let ghost so_far = all@;
            let ghost before = self@;
            proof {
                assert(config_view(left)[0] == full.skip(done)[0]);
            }
            let (name, task) = config.remove(0);
            proof {
                assert(config@ =~= left.drop_first());
                assert forall|i: int| 0 <= i < config@.len() implies config_view(config@)[i]
                    == full.skip(done + 1)[i] by {
                    assert(config@[i] == left[i + 1]);
                    assert(config_view(left)[i + 1] == full.skip(done)[i + 1]);
                }
                assert(config_view(config@) =~= full.skip(done + 1));
                assert(full.take(done + 1).drop_last() =~= full.take(done));
                assert(full.take(done + 1).last() == full[done]);
                assert(name@ == full[done].0 && task@ == full[done].1);
            }
            let orders = match self.find(name.as_str()) {
                Some(k) => self.reload_task(k, name, task, now, timestamp),
                None => self.add_task(name, task, now, timestamp),
            };
            all.push(orders);
            proof {
                assert forall|i: int| 0 <= i < all@.len() implies reload_orders(
                    #[trigger] all@[i],
                    reloaded(start, full.take(i), now),
                    reloaded(start, full.take(i + 1), now),
                    full[i].0,
                    full[i].1,
                    timestamp,
                ) by {
                    if i < done {
                        assert(all@[i] == so_far[i]);
                    }
                }
            }
        }
        proof {
            assert(full.take(total as int) =~= full);
        }
        all
    }

    fn reload_task(&mut self, k: usize, name: String, task: Task, now: u64, timestamp: u64) -> (r: Orders)
        requires
            old(self).wf(),
            position(old(self)@, name@) == Some(k as int),
            k < old(self)@.len(),
        ensures
            final(self).wf(),
            final(self)@ == reloaded_one(old(self)@, name@, task@, now),
            reload_orders(r, old(self)@, final(self)@, name@, task@, timestamp),
    {
        let ghost before = self@;
        let (signals, spawns) = self.monitors[k].reload(task, now, timestamp);
        assert(self@ =~= before.update(k as int, before[k as int].reload(task@, now)));
        Orders { taskid: name, signals, spawns }
    }

    fn add_task(&mut self, name: String, task: Task, now: u64, timestamp: u64) -> (r: Orders)
        requires
            old(self).wf(),
            position(old(self)@, name@).is_none(),
        ensures
            final(self).wf(),
            final(self)@ == reloaded_one(old(self)@, name@, task@, now),
            reload_orders(r, old(self)@, final(self)@, name@, task@, timestamp),
    {
        let ghost before = self@;
        proof {
            lemma_position(before, name@);
        }
        let (mon, spawns) = Monitor::new(name.clone(), task, now, timestamp);
        self.monitors.push(mon);
        proof {
            assert(self@ =~= before.push(admitted(name@, task@, now)));
            assert forall|i: int, j: int| 0 <= i < j < self@.len() implies (#[trigger] self@[i]).id != (
            #[trigger] self@[j]).id by {
                if j < before.len() {
                    assert(self@[i] == before[i] && self@[j] == before[j]);
                } else {
                    assert(self@[i] == before[i]);
                }
            }
        }
        Orders { taskid: name, signals: Vec::new(), spawns }
    }

    /// Asks the task `name` to start at `now`. The answer is the orders to
    /// carry out, or the error that no task has that name.
    pub fn start(&mut self, name: &str, now: u64, timestamp: u64) -> (r: Result<Orders, Reply>)
        requires
            old(self).wf(),
        ensures
            final(self).wf(),
            final(self)@ == started(old(self)@, name@, now),
            answers(r, old(self)@, final(self)@, name@, Seq::empty(), timestamp),
    {
        match self.find(name) {
            Some(k) => {
                let ghost before = self@;
                let spawns = self.monitors[k].start(now, timestamp);
                assert(self@ =~= before.update(k as int, before[k as int].start(now)));
                let signals: Vec<SignalOrder> = Vec::new();
                assert(signals@ =~= Seq::<SignalOrder>::empty());
                Ok(Orders { taskid: String::from_str(name), signals, spawns })
            },
            None => Err(unknown_taskid(name)),
        }
    }

    /// Asks the task `name` to stop at `now`.
    pub fn stop(&mut self, name: &str, now: u64, timestamp: u64) -> (r: Result<Orders, Reply>)
        requires
            old(self).wf(),
        ensures
            final(self).wf(),
            final(self)@ == stopped(old(self)@, name@, now),
            answers(r, old(self)@, final(self)@, name@, stop_signals_of(old(self)@, name@), timestamp),
    {
        match self.find(name) {
            Some(k) => {
                let ghost before = self@;
                let signals = self.monitors[k].stop(now);
                assert(self@ =~= before.update(k as int, before[k as int].stop(now)));
                Ok(Orders { taskid: String::from_str(name), signals, spawns: Vec::new() })
            },
            None => Err(unknown_taskid(name)),
        }
    }

    /// Asks the task `name` to restart at `now`: a stop, and a start at
    /// once.
    pub fn restart(&mut self, name: &str, now: u64, timestamp: u64) -> (r: Result<Orders, Reply>)
        requires
            old(self).wf(),
        ensures
            final(self).wf(),
            final(self)@ == restarted(old(self)@, name@, now),
            answers(r, old(self)@, final(self)@, name@, stop_signals_of(old(self)@, name@), timestamp),
    {
        let ghost before = self@;
        let halted = self.stop(name, now, timestamp);
        let ghost between = self@;
        let begun = self.start(name, now, timestamp);
        proof {
            lemma_position(before, name@);
            lemma_position(between, name@);
            match position(before, name@) {
                Some(k) => {
                    lemma_position_is(between, name@, k);
                },
                None => {},
            }
        }
        match halted {
            Ok(first) => match begun {
                Ok(second) => Ok(
                    Orders { taskid: first.taskid, signals: first.signals, spawns: second.spawns },
                ),
                Err(reply) => Err(reply),
            },
            Err(reply) => Err(reply),
        }
    }

    /// Asks every task to stop at `now`, as a supervisor does before it
    /// leaves. Returns the orders for each task, in the registry's order.
    pub fn stop_all(&mut self, now: u64) -> (r: Vec<Orders>)
        requires
            old(self).wf(),
        ensures
            final(self).wf(),
            final(self)@ == stopped_every(old(self)@, now),
            r@.len() == old(self)@.len(),
            forall|i: int| 0 <= i < r@.len() ==> stop_orders(#[trigger] r@[i], old(self)@[i]),
    {
        let ghost before = self@;
        let mut all: Vec<Orders> = Vec::new();
        let mut i: usize = 0;
        while i < self.monitors.len()
            invariant
                i <= self.monitors.len(),
                self.wf(),
                self@.len() == before.len(),
                all@.len() == i,
                forall|j: int| 0 <= j < i ==> (#[trigger] self@[j]) == before[j].stop(now),
                forall|j: int| i <= j < before.len() ==> (#[trigger] self@[j]) == before[j],
                forall|j: int| 0 <= j < i ==> stop_orders(#[trigger] all@[j], before[j]),
            decreases self.monitors.len() - i,
        {
            let ghost so_far = self@;
            let ghost asked = all@;
            let taskid = self.monitors[i].id().clone();
            let signals = self.monitors[i].stop(now);
            proof {
                assert(self@ =~= so_far.update(i as int, so_far[i as int].stop(now)));
            }
            all.push(Orders { taskid, signals, spawns: Vec::new() });
            proof {
                assert forall|j: int| 0 <= j < i + 1 implies stop_orders(
                    #[trigger] all@[j],
                    before[j],
                ) by {
                    if j < i {
                        assert(all@[j] == asked[j]);
                    }
                }
            }
            i += 1;
        }
        assert(self@ =~= stopped_every(before, now));
        all
    }

    /// The settings of the task `name`.
    pub fn info(&self, name: &str) -> (r: Reply)
        ensures
            info_reply(r, self@, name@),
    {
        match self.find(name) {
            Some(k) => Reply::Task {
                taskid: String::from_str(name),
                task: self.monitors[k].get_task().duplicate(),
            },
            None => unknown_taskid(name),
        }
    }

    /// Every task by name, in the registry's order.
    pub fn list(&self) -> (r: Reply)
        ensures
            list_reply(r, self@),
    {
        let mut tasks: Vec<(String, Task)> = Vec::new();
        let mut i: usize = 0;
        while i < self.monitors.len()
            invariant
                i <= self.monitors.len(),
                tasks@.len() == i,
                forall|j: int|
                    0 <= j < i ==> (#[trigger] tasks@[j]).0@ == self@[j].id && tasks@[j].1@
                        == self@[j].task,
            decreases self.monitors.len() - i,
        {
            tasks.push((self.monitors[i].id().clone(), self.monitors[i].get_task().duplicate()));
            i += 1;
        }
        assert(config_view(tasks@) =~= listing(self@));
        Reply::Tasks { tasks }
    }

    /// The state of the task `name`.
    pub fn status(&self, name: &str) -> (r: Reply)
        ensures
            status_reply(r, self@, name@),
    {
        match self.find(name) {
            Some(k) => Reply::Status {
                taskid: String::from_str(name),
                status: self.monitors[k].status(),
            },
            None => unknown_taskid(name),
        }
    }

    /// Lists the children of the task `name` to kill at `now`; none where
    /// no task has the name.
    pub fn kill_orders(&self, name: &str, exits: &Vec<ChildExit>, now: u64) -> (r: Vec<u32>)
        ensures
            r@ == (match position(self@, name@) {
                Some(k) => due_for_kill(self@[k].stopping, exits@, now),
                None => Seq::<u32>::empty(),
            }),
    {
        match self.find(name) {
            Some(k) => self.monitors[k].kill_orders(exits, now),
            None => Vec::new(),
        }
    }

    /// Takes the task `name` through one cycle at `now`, given the exits
    /// observed of its children.
    pub fn cycle(&mut self, name: &str, exits: &Vec<ChildExit>, now: u64, timestamp: u64) -> (r: Result<
        Orders,
        Reply,
    >)
        requires
            old(self).wf(),
        ensures
            final(self).wf(),
            final(self)@ == cycled(old(self)@, name@, exits@, now),
            answers(r, old(self)@, final(self)@, name@, Seq::empty(), timestamp),
    {
        match self.find(name) {
            Some(k) => {
                let ghost before = self@;
                proof {
                    crate::model::lemma_cycle_wf(before[k as int], exits@, now);
                }
                let spawns = self.monitors[k].cycle(exits, now, timestamp);
                assert(self@ =~= before.update(k as int, before[k as int].cycle(exits@, now)));
                let signals: Vec<SignalOrder> = Vec::new();
                assert(signals@ =~= Seq::<SignalOrder>::empty());
                Ok(Orders { taskid: String::from_str(name), signals, spawns })
            },
            None => Err(unknown_taskid(name)),
        }
    }

    /// The names of the tasks that are to go through the next cycle. Where
    /// there is none, the cycles can end.
    pub fn working(&self) -> (r: Vec<String>)
        ensures
            crate::text::views(r@) == working_names(self@),
    {
        let mut names: Vec<String> = Vec::new();
        let mut i: usize = 0;
        assert(self@.take(0) =~= Seq::<MonitorView>::empty());
        while i < self.monitors.len()
            invariant
                i <= self.monitors.len(),
                crate::text::views(names@) == working_names(self@.take(i as int)),
            decreases self.monitors.len() - i,
        {
            let ghost so_far = names@;
            proof {
                let upto = self@.take(i + 1);
                assert(upto.drop_last() =~= self@.take(i as int));
                assert(upto.last() == self@[i as int]);
            }
            let monitor = &self.monitors[i];
            if monitor.is_running() || running_state(monitor.status()) {
                names.push(monitor.id().clone());
                assert(crate::text::views(names@) =~= crate::text::views(so_far).push(
                    self@[i as int].id,
                ));
            }
            i += 1;
        }
        assert(self@.take(self.monitors.len() as int) =~= self@);
        names
    }
}

} // verus!

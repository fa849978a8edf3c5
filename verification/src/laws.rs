//! What holds of the state machine whatever the task, the clock and the
//! exits observed.

use crate::child::{
    due_for_kill, exit_of, kept_running, kept_stopping, spec_seconds, stopped_all, ChildExit,
    FinishedChild, StoppingChild,
};
use crate::model::{classify, restart_wanted, MonitorView};
use crate::monitor::{orders_match, SpawnOrder};
use crate::relaunch::Relaunch;
use crate::state::{
    lemma_position, lemma_position_is, position, reloaded, reloaded_one, restarted, started, stopped,
};
use crate::status::{spec_startable_state, Status};
use crate::task::TaskView;
use vstd::prelude::*;

verus! {

/// No child is in two cohorts at once: no running child is a stopping one,
/// and between two transitions none waits to be judged.
pub proof fn lemma_cohorts_disjoint(m: MonitorView)
    requires
        m.wf(),
    ensures
        forall|i: int, j: int|
            0 <= i < m.running.len() && 0 <= j < m.stopping.len() ==> (#[trigger] m.running[i]).id != (
            #[trigger] m.stopping[j]).id,
        forall|i: int, j: int|
            0 <= i < j < m.running.len() ==> (#[trigger] m.running[i]).id != (
            #[trigger] m.running[j]).id,
        forall|i: int, j: int|
            0 <= i < j < m.stopping.len() ==> (#[trigger] m.stopping[i]).id != (
            #[trigger] m.stopping[j]).id,
        m.finished.len() == 0,
{
}

/// Every child's number lies below the count of children spawned, so the
/// next child to be spawned gets a number that no child of the monitor has.
pub proof fn lemma_next_number_is_new(m: MonitorView)
    requires
        m.sound(),
    ensures
        forall|i: int| 0 <= i < m.running.len() ==> (#[trigger] m.running[i]).id < m.spawned_children,
        forall|i: int|
            0 <= i < m.stopping.len() ==> (#[trigger] m.stopping[i]).id < m.spawned_children,
{
}

/// The children that a transition orders to spawn are numbered from the
/// monitor's count of children on: each gets a number of its own, which no
/// child of the monitor has or had.
pub proof fn lemma_orders_are_new(
    m: MonitorView,
    orders: Seq<SpawnOrder>,
    task: TaskView,
    count: int,
    timestamp: u64,
)
    requires
        m.sound(),
        orders_match(orders, task, m.spawned_children, count, timestamp),
    ensures
        forall|k: int| 0 <= k < orders.len() ==> (#[trigger] orders[k]).child == m.spawned_children + k,
        forall|k: int, l: int|
            0 <= k < l < orders.len() ==> (#[trigger] orders[k]).child != (#[trigger] orders[l]).child,
        forall|k: int, i: int|
            0 <= k < orders.len() && 0 <= i < m.running.len() ==> (#[trigger] orders[k]).child != (
            #[trigger] m.running[i]).id,
        forall|k: int, i: int|
            0 <= k < orders.len() && 0 <= i < m.stopping.len() ==> (#[trigger] orders[k]).child != (
            #[trigger] m.stopping[i]).id,
{
}

/// Under a template that holds `{.Id}`, two of the children that one
/// transition orders to spawn write to different files.
pub proof fn lemma_ordered_children_write_apart(
    m: MonitorView,
    orders: Seq<SpawnOrder>,
    task: TaskView,
    count: int,
    timestamp: u64,
    at: int,
    k: int,
    l: int,
)
    requires
        orders_match(orders, task, m.spawned_children, count, timestamp),
        crate::text::occurs_at(task.stdout, "{.Id}"@, at),
        0 <= k < l < orders.len(),
    ensures
        orders[k].command.stdout@ != orders[l].command.stdout@,
{
    crate::task::lemma_names_differ(
        task.stdout,
        at,
        orders[k].child,
        orders[l].child,
        timestamp,
    );
}

/// A monitor never counts more retries than its task allows.
pub proof fn lemma_retries_bounded(m: MonitorView)
    requires
        m.sound(),
    ensures
        m.retry_count <= m.task.retry,
{
}

/// After a cycle that leaves the monitor without a child it is in a
/// terminal state.
pub proof fn lemma_idle_after_cycle(m: MonitorView, exits: Seq<ChildExit>, now: u64)
    ensures
        m.cycle(exits, now).running.len() == 0 && m.cycle(exits, now).stopping.len() == 0 ==> {
            let state = m.cycle(exits, now).state;
            state == Status::Stopped || state == Status::Failed || state == Status::Finished
        },
{
}

/// Judging exits leaves a stopping monitor stopping, and the stopping
/// children where they are.
pub proof fn lemma_drain_keeps_stopping(m: MonitorView, now: u64)
    ensures
        m.drain(now).stopping == m.stopping,
        m.state == Status::Stopping ==> m.drain(now).state == Status::Stopping,
    decreases m.finished.len(),
{
    if m.finished.len() > 0 {
        let rest = MonitorView { finished: m.finished.drop_first(), ..m };
        lemma_drain_keeps_stopping(rest.settle(m.finished[0], now), now);
    }
}

/// A stopping monitor stays stopping through every cycle that leaves a
/// child stopping, whatever exits the cycle sees, so that a start has no
/// effect until the last of them has exited.
pub proof fn lemma_stop_waits(m: MonitorView, exits: Seq<ChildExit>, now: u64, later: u64)
    requires
        m.state == Status::Stopping,
        m.cycle(exits, now).stopping.len() > 0,
    ensures
        m.cycle(exits, now).state == Status::Stopping,
        m.cycle(exits, now).start(later) == m.cycle(exits, now),
{
    lemma_drain_keeps_stopping(m.reap(exits, now), now);
}

/// With the policy that never restarts, judging exits spawns nothing.
pub proof fn lemma_drain_without_restart(m: MonitorView, now: u64)
    requires
        m.task.restart == Relaunch::Never || m.task.retry == 0,
    ensures
        m.drain(now).running == m.running,
        m.drain(now).stopping == m.stopping,
        m.drain(now).spawned_children == m.spawned_children,
        m.drain(now).retry_count == m.retry_count,
        m.drain(now).task == m.task,
        m.state == Status::Stopping ==> m.drain(now).state == Status::Stopping,
        m.finished.len() == 0 ==> m.drain(now).state == m.state,
    decreases m.finished.len(),
{
    if m.finished.len() > 0 {
        let rest = MonitorView { finished: m.finished.drop_first(), ..m };
        lemma_drain_without_restart(rest.settle(m.finished[0], now), now);
    }
}

/// With the policy that never restarts, a cycle spawns no child, whatever
/// exits it sees: the running children afterwards are those of before that
/// were not reported.
pub proof fn lemma_never_restarts(m: MonitorView, exits: Seq<ChildExit>, now: u64)
    requires
        m.task.restart == Relaunch::Never,
    ensures
        m.cycle(exits, now).spawned_children == m.spawned_children,
        m.cycle(exits, now).running == kept_running(m.running, exits),
{
    lemma_drain_without_restart(m.reap(exits, now), now);
}

/// Reloading the same task a second time changes nothing.
pub proof fn lemma_reload_idempotent(m: MonitorView, task: TaskView, now: u64, later: u64)
    ensures
        m.reload(task, now).reload(task, later) == m.reload(task, now),
{
}

/// A reload with the task that the monitor has changes nothing.
pub proof fn lemma_reload_same_task(m: MonitorView, now: u64)
    ensures
        m.reload(m.task, now) == m,
{
}

/// A reload with another task, met by a monitor with running children or
/// with a task that starts by itself, leaves the monitor active with
/// exactly the new task's number of children running, all of them new, and
/// the children that were running asked to stop.
pub proof fn lemma_reload_replaces_children(m: MonitorView, task: TaskView, now: u64)
    requires
        m.task != task,
        m.running.len() > 0 || task.autostart,
        m.spawned_children + task.numprocess <= u32::MAX,
    ensures
        m.reload(task, now).state == Status::Active,
        m.reload(task, now).task == task,
        m.reload(task, now).retry_count == 0,
        m.reload(task, now).running == crate::model::new_children(
            task,
            m.spawned_children,
            task.numprocess as nat,
            now,
        ),
        m.reload(task, now).running.len() == task.numprocess,
        m.reload(task, now).stopping == m.stopping + stopped_all(m.running, now),
{
    let after = m.reload(task, now);
    let fresh = crate::model::new_children(task, m.spawned_children, task.numprocess as nat, now);
    assert(after.running =~= fresh);
    if m.running.len() == 0 {
        assert(after.stopping =~= m.stopping + stopped_all(m.running, now));
    }
}

/// A monitor that is started, stopped, taken through the cycle that sees
/// every stopped child exit and started again is active with no retry
/// counted, where the task asks for no restart and the numbers for its
/// children do not run out.
pub proof fn lemma_start_stop_start(
    m: MonitorView,
    first: u64,
    halt: u64,
    exits: Seq<ChildExit>,
    tick: u64,
    second: u64,
)
    requires
        spec_startable_state(m.state),
        m.task.restart == Relaunch::Never || m.task.retry == 0,
        m.spawned_children + 2 * m.task.numprocess <= u32::MAX,
        forall|i: int|
            0 <= i < m.start(first).stop(halt).stopping.len() ==> exit_of(
                exits,
                (#[trigger] m.start(first).stop(halt).stopping[i]).id,
            ).is_some(),
    ensures
        m.start(first).stop(halt).cycle(exits, tick).state == Status::Stopped,
        m.start(first).stop(halt).cycle(exits, tick).start(second).state == Status::Active,
        m.start(first).stop(halt).cycle(exits, tick).start(second).retry_count == 0,
{
    let stopped = m.start(first).stop(halt);
    assert(kept_running(stopped.running, exits) =~= Seq::empty());
    lemma_all_reported_none_stopping(stopped.stopping, exits);
    lemma_drain_without_restart(stopped.reap(exits, tick), tick);
}

/// A task that asks for no process is finished after the first cycle that
/// follows its start, where the monitor had no child left.
pub proof fn lemma_no_process_finishes(m: MonitorView, now: u64, exits: Seq<ChildExit>, tick: u64)
    requires
        spec_startable_state(m.state),
        m.task.numprocess == 0,
        m.running.len() == 0,
        m.stopping.len() == 0,
        m.finished.len() == 0,
    ensures
        m.start(now).state == Status::Active,
        m.start(now).cycle(exits, tick).state == Status::Finished,
{
    let started = m.start(now);
    assert(started.running =~= Seq::empty());
    assert(kept_running(started.running, exits) =~= Seq::empty());
    let reaped = started.reap(exits, tick);
    assert(reaped.finished =~= Seq::empty());
}

/// A stopping child that was not seen to exit is due to be killed as soon
/// as more than its delay has passed since it was asked to stop.
pub proof fn lemma_overdue_is_due(stopping: Seq<StoppingChild>, exits: Seq<ChildExit>, now: u64, i: int)
    requires
        0 <= i < stopping.len(),
        exit_of(exits, stopping[i].id).is_none(),
        stopping[i].spec_overdue(now),
    ensures
        due_for_kill(stopping, exits, now).contains(stopping[i].id),
    decreases stopping.len(),
{
    let due = due_for_kill(stopping, exits, now);
    if i == stopping.len() - 1 {
        assert(due.last() == stopping[i].id);
        assert(due[due.len() - 1] == stopping[i].id);
    } else {
        let front = stopping.drop_last();
        assert(front[i] == stopping[i]);
        lemma_overdue_is_due(front, exits, now, i);
        let before = due_for_kill(front, exits, now);
        let k = choose|k: int| 0 <= k < before.len() && before[k] == stopping[i].id;
        assert(due[k] == stopping[i].id);
    }
}

/// With a stop delay of zero, every child that a stop moved to the
/// stopping cohort is due to be killed at any later moment at which it was
/// not seen to exit.
pub proof fn lemma_stop_without_delay(m: MonitorView, halt: u64, exits: Seq<ChildExit>, now: u64, i: int)
    requires
        m.wf(),
        m.task.stopdelay == 0,
        now > halt,
        0 <= i < m.running.len(),
        exit_of(exits, m.running[i].id).is_none(),
    ensures
        due_for_kill(m.stop(halt).stopping, exits, now).contains(m.running[i].id),
{
    let stopped = m.stop(halt).stopping;
    let at = m.stopping.len() + i;
    assert(stopped[at] == stopped_all(m.running, halt)[i]);
    assert(spec_seconds(0) == 0);
    lemma_overdue_is_due(stopped, exits, now, at);
}

/// Once every stopping child is reported to have exited, none is left
/// stopping.
pub proof fn lemma_all_reported_none_stopping(stopping: Seq<StoppingChild>, exits: Seq<ChildExit>)
    requires
        forall|i: int| 0 <= i < stopping.len() ==> exit_of(exits, (#[trigger] stopping[i]).id).is_some(),
    ensures
        kept_stopping(stopping, exits).len() == 0,
    decreases stopping.len(),
{
    if stopping.len() > 0 {
        let front = stopping.drop_last();
        assert forall|i: int| 0 <= i < front.len() implies exit_of(exits, (#[trigger] front[i]).id).is_some() by {
            assert(front[i] == stopping[i]);
        }
        lemma_all_reported_none_stopping(front, exits);
        assert(stopping.last() == stopping[stopping.len() - 1]);
    }
}

/// A stop comes to its end in the cycle in which every child it asked to
/// stop is reported to have exited, of itself or killed: the monitor is
/// stopped and has no child left, where the task asks for no restart.
pub proof fn lemma_stop_completes(m: MonitorView, halt: u64, exits: Seq<ChildExit>, now: u64)
    requires
        m.task.restart == Relaunch::Never || m.task.retry == 0,
        forall|i: int|
            0 <= i < m.stop(halt).stopping.len() ==> exit_of(
                exits,
                (#[trigger] m.stop(halt).stopping[i]).id,
            ).is_some(),
    ensures
        m.stop(halt).cycle(exits, now).state == Status::Stopped,
        m.stop(halt).cycle(exits, now).running.len() == 0,
        m.stop(halt).cycle(exits, now).stopping.len() == 0,
{
    let stopped = m.stop(halt);
    assert(kept_running(stopped.running, exits) =~= Seq::empty());
    lemma_all_reported_none_stopping(stopped.stopping, exits);
    lemma_drain_without_restart(stopped.reap(exits, now), now);
}

/// A child that exits before its success delay has passed counts as
/// failed, whatever its exit code.
pub proof fn lemma_early_exit_fails(task: TaskView, child: FinishedChild)
    requires
        child.execution_time < child.startup_time,
    ensures
        classify(task, child) == Status::Failed,
{
}

/// A failure calls for no restart under the policy that never restarts.
pub proof fn lemma_never_policy_wants_no_restart(task: TaskView, retry_count: u32, outcome: Status)
    requires
        task.restart == Relaunch::Never,
    ensures
        !restart_wanted(task, retry_count, outcome),
{
}

/// Taking a task for a name leaves every monitor in its place.
pub proof fn lemma_reloaded_one_keeps_place(
    monitors: Seq<MonitorView>,
    id: Seq<char>,
    task: TaskView,
    now: u64,
    other: Seq<char>,
)
    requires
        position(monitors, other).is_some(),
    ensures
        position(reloaded_one(monitors, id, task, now), other) == position(monitors, other),
{
    let after = reloaded_one(monitors, id, task, now);
    lemma_position(monitors, id);
    lemma_position(monitors, other);
    let at = position(monitors, other).unwrap();
    assert forall|j: int| 0 <= j < at implies (#[trigger] after[j]).id != other by {
        assert(monitors[j].id != other);
    }
    lemma_position_is(after, other, at);
}

/// Taking a configuration drops no monitor: a name that had a monitor has
/// it afterwards, in the same place.
pub proof fn lemma_reload_keeps_monitors(
    monitors: Seq<MonitorView>,
    config: Seq<(Seq<char>, TaskView)>,
    now: u64,
    id: Seq<char>,
)
    requires
        position(monitors, id).is_some(),
    ensures
        position(reloaded(monitors, config, now), id) == position(monitors, id),
    decreases config.len(),
{
    if config.len() > 0 {
        lemma_reload_keeps_monitors(monitors, config.drop_last(), now, id);
        lemma_reloaded_one_keeps_place(
            reloaded(monitors, config.drop_last(), now),
            config.last().0,
            config.last().1,
            now,
            id,
        );
    }
}

/// Once a configuration was taken, every name in it has a monitor.
pub proof fn lemma_reload_covers(
    monitors: Seq<MonitorView>,
    config: Seq<(Seq<char>, TaskView)>,
    now: u64,
    i: int,
)
    requires
        0 <= i < config.len(),
    ensures
        position(reloaded(monitors, config, now), config[i].0).is_some(),
    decreases config.len(),
{
    let front = config.drop_last();
    let before = reloaded(monitors, front, now);
    if i == config.len() - 1 {
        lemma_reloaded_one_holds(before, config.last().0, config.last().1, now);
    } else {
        assert(front[i] == config[i]);
        lemma_reload_covers(monitors, front, now, i);
        lemma_reloaded_one_keeps_place(before, config.last().0, config.last().1, now, config[i].0);
    }
}

/// Whether no two entries of a configuration have one name.
pub open spec fn names_distinct(config: Seq<(Seq<char>, TaskView)>) -> bool {
    forall|i: int, j: int| 0 <= i < j < config.len() ==> (#[trigger] config[i]).0 != (#[trigger] config[j]).0
}

/// Whether the registry has a monitor named `id` whose task is `task`.
pub open spec fn holds_task(monitors: Seq<MonitorView>, id: Seq<char>, task: TaskView) -> bool {
    match position(monitors, id) {
        Some(k) => monitors[k].task == task,
        None => false,
    }
}

/// Once the registry took a task for a name, it has a monitor of that name
/// with that task.
pub proof fn lemma_reloaded_one_holds(monitors: Seq<MonitorView>, id: Seq<char>, task: TaskView, now: u64)
    ensures
        holds_task(reloaded_one(monitors, id, task, now), id, task),
{
    let after = reloaded_one(monitors, id, task, now);
    lemma_position(monitors, id);
    match position(monitors, id) {
        Some(k) => {
            assert forall|j: int| 0 <= j < k implies (#[trigger] after[j]).id != id by {
                assert(after[j] == monitors[j]);
            }
            lemma_position_is(after, id, k);
        },
        None => {
            let k = monitors.len() as int;
            assert forall|j: int| 0 <= j < k implies (#[trigger] after[j]).id != id by {
                assert(after[j] == monitors[j]);
            }
            lemma_position_is(after, id, k);
        },
    }
}

/// Taking a task for one name leaves the monitor of any other name as it
/// is.
pub proof fn lemma_reloaded_one_keeps(
    monitors: Seq<MonitorView>,
    id: Seq<char>,
    task: TaskView,
    now: u64,
    other: Seq<char>,
    other_task: TaskView,
)
    requires
        other != id,
        holds_task(monitors, other, other_task),
    ensures
        holds_task(reloaded_one(monitors, id, task, now), other, other_task),
{
    let after = reloaded_one(monitors, id, task, now);
    lemma_position(monitors, id);
    lemma_position(monitors, other);
    let at = position(monitors, other).unwrap();
    assert forall|j: int| 0 <= j < at implies (#[trigger] after[j]).id != other by {
        assert(monitors[j].id != other);
    }
    lemma_position_is(after, other, at);
}

/// Once the registry took a configuration in which no name comes twice,
/// each of its names has a monitor with the task that the configuration
/// gives it.
pub proof fn lemma_reloaded_holds(
    monitors: Seq<MonitorView>,
    config: Seq<(Seq<char>, TaskView)>,
    now: u64,
    i: int,
)
    requires
        names_distinct(config),
        0 <= i < config.len(),
    ensures
        holds_task(reloaded(monitors, config, now), config[i].0, config[i].1),
    decreases config.len(),
{
    let front = config.drop_last();
    let before = reloaded(monitors, front, now);
    if i == config.len() - 1 {
        lemma_reloaded_one_holds(before, config.last().0, config.last().1, now);
    } else {
        assert forall|a: int, b: int| 0 <= a < b < front.len() implies (#[trigger] front[a]).0 != (
        #[trigger] front[b]).0 by {
            assert(front[a] == config[a] && front[b] == config[b]);
        }
        assert(front[i] == config[i]);
        lemma_reloaded_holds(monitors, front, now, i);
        assert(config[i].0 != config[config.len() - 1].0);
        lemma_reloaded_one_keeps(
            before,
            config.last().0,
            config.last().1,
            now,
            config[i].0,
            config[i].1,
        );
    }
}

/// A registry whose monitors already have the tasks of a configuration
/// takes that configuration without a change.
pub proof fn lemma_reload_settled(monitors: Seq<MonitorView>, config: Seq<(Seq<char>, TaskView)>, now: u64)
    requires
        forall|i: int| 0 <= i < config.len() ==> holds_task(monitors, (#[trigger] config[i]).0, config[i].1),
    ensures
        reloaded(monitors, config, now) == monitors,
    decreases config.len(),
{
    if config.len() > 0 {
        let front = config.drop_last();
        assert forall|i: int| 0 <= i < front.len() implies holds_task(
            monitors,
            (#[trigger] front[i]).0,
            front[i].1,
        ) by {
            assert(front[i] == config[i]);
        }
        lemma_reload_settled(monitors, front, now);
        assert(config.last() == config[config.len() - 1]);
        assert(holds_task(monitors, config.last().0, config.last().1));
        let k = position(monitors, config.last().0).unwrap();
        lemma_position(monitors, config.last().0);
        assert(monitors.update(k, monitors[k]) =~= monitors);
    }
}

/// Taking the same configuration a second time changes nothing, where no
/// name comes twice in it.
pub proof fn lemma_registry_reload_idempotent(
    monitors: Seq<MonitorView>,
    config: Seq<(Seq<char>, TaskView)>,
    now: u64,
    later: u64,
)
    requires
        names_distinct(config),
    ensures
        reloaded(reloaded(monitors, config, now), config, later) == reloaded(monitors, config, now),
{
    let once = reloaded(monitors, config, now);
    assert forall|i: int| 0 <= i < config.len() implies holds_task(
        once,
        (#[trigger] config[i]).0,
        config[i].1,
    ) by {
        lemma_reloaded_holds(monitors, config, now, i);
    }
    lemma_reload_settled(once, config, later);
}

/// A restart leaves the registry as a stop followed at once by a start
/// does. Such a start finds the monitor stopping and changes nothing, so a
/// restart leaves what a stop leaves.
pub proof fn lemma_restart_is_stop_then_start(monitors: Seq<MonitorView>, id: Seq<char>, now: u64)
    ensures
        restarted(monitors, id, now) == started(stopped(monitors, id, now), id, now),
        restarted(monitors, id, now) == stopped(monitors, id, now),
{
    let halted = stopped(monitors, id, now);
    lemma_position(monitors, id);
    match position(monitors, id) {
        Some(k) => {
            assert forall|j: int| 0 <= j < k implies (#[trigger] halted[j]).id != id by {
                assert(halted[j] == monitors[j]);
            }
            lemma_position_is(halted, id, k);
            assert(halted.update(k, halted[k]) =~= halted);
        },
        None => {},
    }
}

} // verus!

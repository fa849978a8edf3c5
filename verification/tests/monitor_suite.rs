use taskmaster::child::{elapsed, find_exit, seconds, ChildExit, FinishedChild, NANOS_PER_SEC};
use taskmaster::monitor::Monitor;
use taskmaster::relaunch::Relaunch;
use taskmaster::signal::SIGTERM;
use taskmaster::status::{finished_state, running_state, startable_state, Status};
use taskmaster::task::{Task, TaskPartial};

const SECOND: u64 = 1_000_000_000;

fn task_of(cmd: &str) -> TaskPartial {
    TaskPartial::new(String::from(cmd))
}

fn exits_of(ids: &[u32], code: Option<i32>) -> Vec<ChildExit> {
    ids.iter().map(|&id| ChildExit { id, code }).collect()
}

fn running_ids(m: &Monitor) -> Vec<u32> {
    m.running().iter().map(|c| c.id).collect()
}

fn stopping_ids(m: &Monitor) -> Vec<u32> {
    m.stopping().iter().map(|c| c.id).collect()
}

#[test]
fn test_startable_state() {
    assert_eq!(startable_state(Status::Active), false);
    assert_eq!(startable_state(Status::Reloading), false);
    assert_eq!(startable_state(Status::Failing), false);
    assert_eq!(startable_state(Status::Stopping), false);

    assert_eq!(startable_state(Status::Finished), true);
    assert_eq!(startable_state(Status::Inactive), true);
    assert_eq!(startable_state(Status::Failed), true);
    assert_eq!(startable_state(Status::Stopped), true);
}

#[test]
fn test_running_state() {
    assert_eq!(running_state(Status::Active), true);
    assert_eq!(running_state(Status::Reloading), true);
    assert_eq!(running_state(Status::Failing), true);
    assert_eq!(running_state(Status::Stopping), true);

    assert_eq!(running_state(Status::Finished), false);
    assert_eq!(running_state(Status::Inactive), false);
    assert_eq!(running_state(Status::Failed), false);
    assert_eq!(running_state(Status::Stopped), false);
}

#[test]
fn test_finished_state() {
    assert_eq!(finished_state(Status::Active), Status::Finished);
    assert_eq!(finished_state(Status::Reloading), Status::Finished);
    assert_eq!(finished_state(Status::Finished), Status::Finished);
    assert_eq!(finished_state(Status::Inactive), Status::Finished);

    assert_eq!(finished_state(Status::Failing), Status::Failed);
    assert_eq!(finished_state(Status::Failed), Status::Failed);

    assert_eq!(finished_state(Status::Stopping), Status::Stopped);
    assert_eq!(finished_state(Status::Stopped), Status::Stopped);
}

#[test]
fn new_monitor_is_inactive() {
    let m = Monitor::new_only(String::from("web"), Task::from(task_of("/bin/sleep 1")));
    assert_eq!(m.status(), Status::Inactive);
    assert_eq!(m.id(), "web");
    assert_eq!(m.retry_count(), 0);
    assert_eq!(m.spawned_children(), 0);
    assert!(m.has_finished());
    assert!(!m.is_running());
}

#[test]
fn autostart_starts_at_creation() {
    let mut p = task_of("/bin/sleep 1");
    p.autostart = true;
    let (m, orders) = Monitor::new(String::from("web"), Task::from(p), 5, 1000);
    assert_eq!(m.status(), Status::Active);
    assert_eq!(orders.len(), 1);
    assert_eq!(orders[0].child, 0);
    assert_eq!(orders[0].command.program, "/bin/sleep");
    assert_eq!(orders[0].command.args, vec![String::from("1")]);
    assert_eq!(running_ids(&m), vec![0]);
    assert_eq!(m.running()[0].started_at, 5);

    let (idle, none) = Monitor::new(String::from("web"), Task::from(task_of("/bin/sleep 1")), 5, 1000);
    assert_eq!(idle.status(), Status::Inactive);
    assert!(none.is_empty());
}

#[test]
fn happy_path_finishes() {
    let mut p = task_of("/bin/sleep 1");
    p.autostart = true;
    let (mut m, _) = Monitor::new(String::from("web"), Task::from(p), 0, 1000);
    let nothing = m.cycle(&Vec::new(), SECOND / 2, 1000);
    assert!(nothing.is_empty());
    assert_eq!(m.status(), Status::Active);
    let orders = m.cycle(&exits_of(&[0], Some(0)), SECOND, 1001);
    assert!(orders.is_empty());
    assert_eq!(m.status(), Status::Finished);
    assert_eq!(m.status().to_string(), "finished");
    assert!(m.has_finished());
    assert_eq!(m.spawned_children(), 1);
}

#[test]
fn restart_on_error_uses_every_retry() {
    let mut p = task_of("/bin/false");
    p.restart = Relaunch::OnError;
    p.retry = 3;
    let mut m = Monitor::new_only(String::from("worker"), Task::from(p));
    let mut spawns = m.start(0, 1000).len();
    let mut now = 0;
    let mut rounds = 0;
    while m.is_running() {
        now += SECOND / 2;
        rounds += 1;
        let exits = exits_of(&running_ids(&m), Some(1));
        let orders = m.cycle(&exits, now, 1000);
        for order in &orders {
            assert_eq!(order.child as usize, spawns);
            spawns += 1;
        }
        assert!(m.retry_count() <= m.get_task().retry());
    }
    assert_eq!(rounds, 4);
    assert_eq!(spawns, 4);
    assert_eq!(m.status(), Status::Failed);
    assert_eq!(m.status().to_string(), "failed");
    assert_eq!(m.retry_count(), 3);
    assert_eq!(m.spawned_children(), 4);
}

#[test]
fn restart_always_after_success() {
    let mut p = task_of("/bin/true");
    p.restart = Relaunch::Always;
    p.retry = 2;
    let mut m = Monitor::new_only(String::from("t"), Task::from(p));
    m.start(0, 1);
    let first = m.cycle(&exits_of(&[0], Some(0)), 10, 1);
    assert_eq!(first.len(), 1);
    assert_eq!(first[0].child, 1);
    assert_eq!(m.status(), Status::Active);
    assert_eq!(m.retry_count(), 1);
    // a failure is not restarted under this policy
    let second = m.cycle(&exits_of(&[1], Some(3)), 20, 1);
    assert!(second.is_empty());
    assert_eq!(m.status(), Status::Failed);
    assert_eq!(m.retry_count(), 1);
}

#[test]
fn never_policy_spawns_nothing_on_failure() {
    let mut p = task_of("/bin/false");
    p.retry = 5;
    p.numprocess = 3;
    let mut m = Monitor::new_only(String::from("t"), Task::from(p));
    assert_eq!(m.start(0, 1).len(), 3);
    let orders = m.cycle(&exits_of(&[0, 2], Some(1)), 10, 1);
    assert!(orders.is_empty());
    assert_eq!(m.spawned_children(), 3);
    assert_eq!(running_ids(&m), vec![1]);
    assert_eq!(m.status(), Status::Failing);
    assert_eq!(m.retry_count(), 0);
    let orders = m.cycle(&exits_of(&[1], Some(0)), 20, 1);
    assert!(orders.is_empty());
    assert_eq!(m.status(), Status::Failed);
}

#[test]
fn graceful_stop_is_honored() {
    let mut p = task_of("/bin/sleep 60");
    p.stopdelay = 5;
    let mut m = Monitor::new_only(String::from("job"), Task::from(p));
    m.start(0, 1);
    let signals = m.stop(SECOND);
    assert_eq!(signals.len(), 1);
    assert_eq!(signals[0].child, 0);
    assert_eq!(signals[0].signal.number, SIGTERM);
    assert_eq!(m.status(), Status::Stopping);
    assert!(running_ids(&m).is_empty());
    assert_eq!(stopping_ids(&m), vec![0]);
    assert_eq!(m.stopping()[0].stopped_at, SECOND);
    assert_eq!(m.stopping()[0].timeout, 5 * SECOND);
    // ticks go by in which the child has not left yet
    let mut now = SECOND;
    for _ in 0..3 {
        now += SECOND / 2;
        assert!(m.kill_orders(&Vec::new(), now).is_empty());
        assert!(m.cycle(&Vec::new(), now, 1).is_empty());
        assert_eq!(m.status(), Status::Stopping);
        assert!(m.is_running());
        assert_eq!(stopping_ids(&m), vec![0]);
        assert!(m.start(now, 1).is_empty());
    }
    // the child leaves by itself before its delay is over: nothing to kill
    let polled = exits_of(&[0], None);
    assert!(m.kill_orders(&polled, 3 * SECOND).is_empty());
    m.cycle(&polled, 3 * SECOND, 1);
    assert_eq!(m.status(), Status::Stopped);
    assert!(m.has_finished());
    // nothing changes in later cycles
    m.cycle(&Vec::new(), 4 * SECOND, 1);
    assert_eq!(m.status(), Status::Stopped);
}

#[test]
fn forced_kill_after_delay() {
    let mut p = task_of("/bin/sh -c trap");
    p.stopdelay = 2;
    let mut m = Monitor::new_only(String::from("job"), Task::from(p));
    m.start(0, 1);
    m.stop(SECOND);
    let none: Vec<ChildExit> = Vec::new();
    // the ticks of half a second within the delay: the child ignores the
    // signal, nothing is to be killed, and the monitor goes on stopping
    let mut now = SECOND;
    for _ in 0..4 {
        now += SECOND / 2;
        assert!(m.kill_orders(&none, now).is_empty());
        assert!(m.cycle(&none, now, 1).is_empty());
        assert_eq!(m.status(), Status::Stopping);
        assert!(m.is_running());
    }
    assert!(m.kill_orders(&none, 2 * SECOND).is_empty());
    // exactly the delay has passed: not yet more than the delay
    assert!(m.kill_orders(&none, 3 * SECOND).is_empty());
    assert_eq!(m.kill_orders(&none, 3 * SECOND + 1), vec![0]);
    // a child that was seen to exit is not killed
    assert!(m.kill_orders(&exits_of(&[0], Some(0)), 3 * SECOND + 1).is_empty());
    m.cycle(&exits_of(&[0], None), 3 * SECOND + 1, 1);
    assert_eq!(m.status(), Status::Stopped);
    assert!(!m.is_running());
}

#[test]
fn stop_without_delay_kills_at_the_next_tick() {
    let mut p = task_of("/bin/sleep 60");
    p.stopdelay = 0;
    p.numprocess = 2;
    let mut m = Monitor::new_only(String::from("job"), Task::from(p));
    m.start(0, 1);
    m.stop(10);
    assert!(m.kill_orders(&Vec::new(), 10).is_empty());
    assert_eq!(m.kill_orders(&Vec::new(), 11), vec![0, 1]);
    assert_eq!(m.kill_orders(&exits_of(&[0], Some(0)), 11), vec![1]);
    m.cycle(&exits_of(&[0, 1], None), 11, 1);
    assert_eq!(m.status(), Status::Stopped);
    assert!(m.has_finished());
}

#[test]
fn no_process_finishes_at_the_next_cycle() {
    let mut p = task_of("/bin/true");
    p.numprocess = 0;
    let mut m = Monitor::new_only(String::from("none"), Task::from(p));
    let orders = m.start(0, 1);
    assert!(orders.is_empty());
    assert_eq!(m.status(), Status::Active);
    m.cycle(&Vec::new(), 1, 1);
    assert_eq!(m.status(), Status::Finished);
}

#[test]
fn start_has_no_effect_while_at_work() {
    let mut m = Monitor::new_only(String::from("t"), Task::from(task_of("/bin/sleep 9")));
    assert_eq!(m.start(0, 1).len(), 1);
    assert!(m.start(1, 1).is_empty());
    assert_eq!(m.spawned_children(), 1);
    m.stop(2);
    assert!(m.start(3, 1).is_empty());
    assert_eq!(m.status(), Status::Stopping);
}

#[test]
fn start_stop_start_is_active_again() {
    let mut p = task_of("/bin/false");
    p.restart = Relaunch::OnError;
    p.retry = 0;
    let mut m = Monitor::new_only(String::from("t"), Task::from(p));
    m.start(0, 1);
    m.stop(1);
    m.cycle(&exits_of(&[0], None), 2, 1);
    assert_eq!(m.status(), Status::Stopped);
    let orders = m.start(3, 1);
    assert_eq!(orders.len(), 1);
    assert_eq!(orders[0].child, 1);
    assert_eq!(m.status(), Status::Active);
    assert_eq!(m.retry_count(), 0);
}

#[test]
fn start_resets_the_retries() {
    let mut p = task_of("/bin/false");
    p.restart = Relaunch::OnError;
    p.retry = 1;
    let mut m = Monitor::new_only(String::from("t"), Task::from(p));
    m.start(0, 1);
    m.cycle(&exits_of(&[0], Some(1)), 1, 1);
    assert_eq!(m.retry_count(), 1);
    m.cycle(&exits_of(&[1], Some(1)), 2, 1);
    assert_eq!(m.status(), Status::Failed);
    m.start(3, 1);
    assert_eq!(m.retry_count(), 0);
    assert_eq!(m.status(), Status::Active);
    assert_eq!(running_ids(&m), vec![2]);
}

#[test]
fn early_exit_counts_as_failure() {
    let mut p = task_of("/bin/true");
    p.successdelay = 3;
    let mut m = Monitor::new_only(String::from("t"), Task::from(p));
    m.start(SECOND, 1);
    assert_eq!(m.running()[0].startup_time, 3 * SECOND);
    let early = FinishedChild { id: 0, status: Some(0), execution_time: 3 * SECOND - 1, startup_time: 3 * SECOND };
    let in_time = FinishedChild { id: 0, status: Some(0), execution_time: 3 * SECOND, startup_time: 3 * SECOND };
    let wrong_code = FinishedChild { id: 0, status: Some(2), execution_time: 9 * SECOND, startup_time: 3 * SECOND };
    let signaled = FinishedChild { id: 0, status: None, execution_time: 9 * SECOND, startup_time: 3 * SECOND };
    assert_eq!(m.check_finished_child(&early), Status::Failed);
    assert_eq!(m.check_finished_child(&in_time), Status::Finished);
    assert_eq!(m.check_finished_child(&wrong_code), Status::Failed);
    assert_eq!(m.check_finished_child(&signaled), Status::Failed);
    m.cycle(&exits_of(&[0], Some(0)), 2 * SECOND, 1);
    assert_eq!(m.status(), Status::Failed);
}

#[test]
fn reload_with_the_same_task_changes_nothing() {
    let mut p = task_of("/bin/sleep 60");
    p.numprocess = 2;
    let mut again = task_of("/bin/sleep 60");
    again.numprocess = 2;
    let mut m = Monitor::new_only(String::from("t"), Task::from(p));
    m.start(0, 1);
    let (signals, spawns) = m.reload(Task::from(again), 5, 2);
    assert!(signals.is_empty());
    assert!(spawns.is_empty());
    assert_eq!(running_ids(&m), vec![0, 1]);
    assert_eq!(m.status(), Status::Active);
    assert_eq!(m.spawned_children(), 2);
}

#[test]
fn reload_with_another_task_replaces_the_children() {
    let mut p = task_of("/bin/sleep 60");
    p.numprocess = 2;
    p.stopdelay = 4;
    let mut changed = task_of("/bin/sleep 61");
    changed.numprocess = 2;
    let mut m = Monitor::new_only(String::from("t"), Task::from(p));
    m.start(0, 1);
    let (signals, spawns) = m.reload(Task::from(changed), 5, 2);
    assert_eq!(signals.iter().map(|s| s.child).collect::<Vec<u32>>(), vec![0, 1]);
    assert_eq!(spawns.iter().map(|s| s.child).collect::<Vec<u32>>(), vec![2, 3]);
    assert_eq!(spawns[0].command.args, vec![String::from("61")]);
    assert_eq!(m.status(), Status::Active);
    assert_eq!(running_ids(&m), vec![2, 3]);
    assert_eq!(stopping_ids(&m), vec![0, 1]);
    assert_eq!(m.stopping()[0].timeout, 4 * SECOND);
    assert_eq!(m.get_task().cmd(), "/bin/sleep 61");
    // the same task once more changes nothing
    let mut same = task_of("/bin/sleep 61");
    same.numprocess = 2;
    let (signals, spawns) = m.reload(Task::from(same), 6, 3);
    assert!(signals.is_empty() && spawns.is_empty());
    assert_eq!(running_ids(&m), vec![2, 3]);
}

#[test]
fn reload_of_an_idle_monitor() {
    let mut m = Monitor::new_only(String::from("t"), Task::from(task_of("/bin/a")));
    let (signals, spawns) = m.reload(Task::from(task_of("/bin/b")), 1, 1);
    assert!(signals.is_empty() && spawns.is_empty());
    assert_eq!(m.status(), Status::Inactive);
    let mut auto = task_of("/bin/c");
    auto.autostart = true;
    let (_, spawns) = m.reload(Task::from(auto), 2, 1);
    assert_eq!(spawns.len(), 1);
    assert_eq!(m.status(), Status::Active);
}

#[test]
fn children_keep_numbers_of_their_own() {
    let mut p = task_of("/bin/false");
    p.numprocess = 3;
    p.restart = Relaunch::OnError;
    p.retry = 4;
    let mut m = Monitor::new_only(String::from("t"), Task::from(p));
    let mut seen: Vec<u32> = m.start(0, 1).iter().map(|o| o.child).collect();
    seen.extend(m.cycle(&exits_of(&[1], Some(1)), 1, 1).iter().map(|o| o.child));
    m.stop(2);
    seen.extend(m.cycle(&exits_of(&[0, 3], None), 3, 1).iter().map(|o| o.child));
    let mut sorted = seen.clone();
    sorted.sort();
    sorted.dedup();
    assert_eq!(sorted.len(), seen.len());
    for id in running_ids(&m) {
        assert!(!stopping_ids(&m).contains(&id));
        assert!(id < m.spawned_children());
    }
    // file names made of the number differ from child to child
    let names: Vec<String> = seen
        .iter()
        .map(|&id| taskmaster::task::format_filename("out-{.Id}.log", id, 7))
        .collect();
    let mut unique = names.clone();
    unique.sort();
    unique.dedup();
    assert_eq!(unique.len(), names.len());
}

#[test]
fn times_in_nanoseconds() {
    assert_eq!(NANOS_PER_SEC, 1_000_000_000);
    assert_eq!(seconds(0), 0);
    assert_eq!(seconds(2), 2_000_000_000);
    assert_eq!(seconds(u32::MAX), 4_294_967_295_000_000_000);
    assert_eq!(elapsed(3, 10), 7);
    assert_eq!(elapsed(10, 10), 0);
    assert_eq!(elapsed(10, 3), 0);
    assert_eq!(elapsed(0, u64::MAX), u64::MAX);
}

#[test]
fn the_first_report_of_a_child_counts() {
    let exits = vec![
        ChildExit { id: 4, code: Some(1) },
        ChildExit { id: 2, code: None },
        ChildExit { id: 4, code: Some(0) },
    ];
    assert_eq!(find_exit(&exits, 4), Some(Some(1)));
    assert_eq!(find_exit(&exits, 2), Some(None));
    assert_eq!(find_exit(&exits, 3), None);
    assert_eq!(find_exit(&Vec::new(), 0), None);
}

#[test]
fn a_start_fails_when_the_numbers_run_out() {
    let mut m = Monitor::new_only(String::from("t"), Task::from(task_of("/bin/true")));
    assert_eq!(m.start(0, 1).len(), 1);
    let mut huge = task_of("/bin/true");
    huge.numprocess = u32::MAX;
    let (signals, spawns) = m.reload(Task::from(huge), 1, 1);
    assert_eq!(signals.len(), 1);
    assert!(spawns.is_empty());
    assert_eq!(m.status(), Status::Failed);
    assert_eq!(m.spawned_children(), 1);
    assert!(running_ids(&m).is_empty());
}

#[test]
fn stop_of_an_idle_monitor_ends_at_the_next_cycle() {
    let mut m = Monitor::new_only(String::from("t"), Task::from(task_of("/bin/true")));
    assert!(m.stop(1).is_empty());
    assert_eq!(m.status(), Status::Stopping);
    m.cycle(&Vec::new(), 2, 1);
    assert_eq!(m.status(), Status::Stopped);
}

#[test]
fn a_restart_while_stopping_keeps_the_monitor_stopping() {
    let mut p = task_of("/bin/sleep 60");
    p.restart = Relaunch::OnError;
    p.retry = 1;
    let mut m = Monitor::new_only(String::from("t"), Task::from(p));
    m.start(0, 1);
    m.stop(1);
    let orders = m.cycle(&exits_of(&[0], None), 2, 1);
    assert_eq!(orders.len(), 1);
    assert_eq!(orders[0].child, 1);
    assert_eq!(m.status(), Status::Stopping);
    assert_eq!(running_ids(&m), vec![1]);
    assert_eq!(m.retry_count(), 1);
    assert!(m.start(3, 1).is_empty());
}

#[test]
fn a_stop_waits_for_the_last_child() {
    let mut p = task_of("/bin/sleep 60");
    p.numprocess = 3;
    let mut m = Monitor::new_only(String::from("t"), Task::from(p));
    m.start(0, 1);
    m.stop(1);
    m.cycle(&Vec::new(), 2, 1);
    assert_eq!(m.status(), Status::Stopping);
    m.cycle(&exits_of(&[1], None), 3, 1);
    assert_eq!(m.status(), Status::Stopping);
    assert_eq!(stopping_ids(&m), vec![0, 2]);
    assert!(m.start(4, 1).is_empty());
    m.cycle(&exits_of(&[0], Some(0)), 5, 1);
    assert_eq!(m.status(), Status::Stopping);
    m.cycle(&exits_of(&[2], None), 6, 1);
    assert_eq!(m.status(), Status::Stopped);
    assert!(m.has_finished());
    assert_eq!(m.start(7, 1).len(), 3);
    assert_eq!(m.status(), Status::Active);
}

#[test]
fn a_task_ends_when_its_last_running_child_is_judged() {
    // the children of the task before a reload are still stopping
    let mut p = task_of("/bin/sleep 60");
    p.stopdelay = 9;
    let mut m = Monitor::new_only(String::from("t"), Task::from(p));
    m.start(0, 1);
    m.reload(Task::from(task_of("/bin/true")), 1, 1);
    assert_eq!(m.status(), Status::Active);
    assert_eq!(stopping_ids(&m), vec![0]);
    assert_eq!(running_ids(&m), vec![1]);
    // a cycle that judges nothing changes nothing
    m.cycle(&Vec::new(), 2, 1);
    assert_eq!(m.status(), Status::Active);
    m.cycle(&exits_of(&[1], Some(0)), 3, 1);
    assert_eq!(m.status(), Status::Finished);
    assert_eq!(stopping_ids(&m), vec![0]);
    // no child was judged: the state stays
    m.cycle(&Vec::new(), 4, 1);
    assert_eq!(m.status(), Status::Finished);
}

#[test]
fn exits_of_unknown_children_are_ignored() {
    let mut m = Monitor::new_only(String::from("t"), Task::from(task_of("/bin/sleep 9")));
    m.start(0, 1);
    m.cycle(&exits_of(&[7, 8], Some(0)), 1, 1);
    assert_eq!(m.status(), Status::Active);
    assert_eq!(running_ids(&m), vec![0]);
}

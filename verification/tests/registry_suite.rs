use taskmaster::child::ChildExit;
use taskmaster::formatter::Reply;
use taskmaster::message::{Inter, Message};
use taskmaster::server::{Handled, Next, Server};
use taskmaster::state::State;
use taskmaster::status::Status;
use taskmaster::task::{Task, TaskPartial};

fn task(cmd: &str, autostart: bool, numprocess: u32) -> Task {
    let mut p = TaskPartial::new(String::from(cmd));
    p.autostart = autostart;
    p.numprocess = numprocess;
    Task::from(p)
}

fn config() -> Vec<(String, Task)> {
    vec![
        (String::from("web"), task("/bin/sleep 60", true, 2)),
        (String::from("db"), task("/bin/sleep 61", false, 1)),
    ]
}

fn error_of(reply: &Reply) -> String {
    match reply {
        Reply::Error { message } => message.clone(),
        other => panic!("{:?}", other),
    }
}

#[test]
fn reload_creates_monitors() {
    let mut state = State::new();
    assert_eq!(state.len(), 0);
    let orders = state.reload(config(), 0, 100);
    assert_eq!(state.len(), 2);
    assert_eq!(orders.len(), 2);
    assert_eq!(orders[0].taskid, "web");
    assert_eq!(orders[0].spawns.len(), 2);
    assert!(orders[0].signals.is_empty());
    assert_eq!(orders[1].taskid, "db");
    assert!(orders[1].spawns.is_empty());
    assert_eq!(state.find("web"), Some(0));
    assert_eq!(state.find("db"), Some(1));
    assert_eq!(state.find("nope"), None);
    assert_eq!(state.monitor(0).status(), Status::Active);
    assert_eq!(state.monitor(1).status(), Status::Inactive);
}

#[test]
fn reload_twice_changes_nothing() {
    let mut state = State::new();
    state.reload(config(), 0, 100);
    let pids: Vec<u32> = state.monitor(0).running().iter().map(|c| c.id).collect();
    let orders = state.reload(config(), 5, 105);
    assert_eq!(state.len(), 2);
    for o in &orders {
        assert!(o.signals.is_empty());
        assert!(o.spawns.is_empty());
    }
    assert_eq!(state.monitor(0).running().iter().map(|c| c.id).collect::<Vec<u32>>(), pids);
    assert_eq!(state.monitor(0).status(), Status::Active);
    assert_eq!(state.monitor(1).status(), Status::Inactive);
    assert_eq!(state.monitor(0).spawned_children(), 2);
}

#[test]
fn reload_of_an_unrelated_task_leaves_children_alone() {
    let mut state = State::new();
    state.reload(config(), 0, 100);
    let changed = vec![
        (String::from("web"), task("/bin/sleep 60", true, 2)),
        (String::from("db"), task("/bin/sleep 99", false, 1)),
        (String::from("new"), task("/bin/true", false, 1)),
    ];
    let orders = state.reload(changed, 5, 105);
    assert!(orders[0].signals.is_empty() && orders[0].spawns.is_empty());
    assert_eq!(state.monitor(0).running().iter().map(|c| c.id).collect::<Vec<u32>>(), vec![0, 1]);
    assert_eq!(state.monitor(1).get_task().cmd(), "/bin/sleep 99");
    assert_eq!(state.len(), 3);
    assert_eq!(state.monitor(2).id(), "new");
}

#[test]
fn reload_with_a_changed_command() {
    let mut state = State::new();
    state.reload(config(), 0, 100);
    let changed = vec![(String::from("web"), task("/bin/sleep 70", true, 2))];
    let orders = state.reload(changed, 5, 105);
    assert_eq!(orders.len(), 1);
    assert_eq!(orders[0].signals.len(), 2);
    assert_eq!(orders[0].spawns.len(), 2);
    assert_eq!(orders[0].spawns[0].command.args, vec![String::from("70")]);
    let web = state.monitor(0);
    assert_eq!(web.status(), Status::Active);
    assert_eq!(web.running().len(), 2);
    assert_eq!(web.stopping().len(), 2);
    assert_eq!(state.len(), 2);
}

#[test]
fn requests_on_unknown_tasks() {
    let mut state = State::new();
    state.reload(config(), 0, 100);
    assert_eq!(error_of(&state.start("ghost", 1, 1).unwrap_err()), "unknown taskid ghost");
    assert_eq!(error_of(&state.stop("ghost", 1, 1).unwrap_err()), "unknown taskid ghost");
    assert_eq!(error_of(&state.restart("ghost", 1, 1).unwrap_err()), "unknown taskid ghost");
    assert_eq!(error_of(&state.cycle("ghost", &Vec::new(), 1, 1).unwrap_err()), "unknown taskid ghost");
    assert_eq!(error_of(&state.info("ghost")), "unknown taskid ghost");
    assert_eq!(error_of(&state.status("ghost")), "unknown taskid ghost");
    assert!(state.kill_orders("ghost", &Vec::new(), 1).is_empty());
    assert_eq!(state.len(), 2);
    assert_eq!(state.monitor(0).status(), Status::Active);
}

#[test]
fn start_stop_status_info_list() {
    let mut state = State::new();
    state.reload(config(), 0, 100);
    let started = state.start("db", 1, 101).unwrap();
    assert_eq!(started.taskid, "db");
    assert_eq!(started.spawns.len(), 1);
    assert!(matches!(state.status("db"), Reply::Status { status: Status::Active, .. }));
    let stopped = state.stop("db", 2, 102).unwrap();
    assert_eq!(stopped.signals.len(), 1);
    assert!(stopped.spawns.is_empty());
    match state.status("db") {
        Reply::Status { taskid, status } => {
            assert_eq!(taskid, "db");
            assert_eq!(status, Status::Stopping);
        }
        other => panic!("{:?}", other),
    }
    match state.info("web") {
        Reply::Task { taskid, task } => {
            assert_eq!(taskid, "web");
            assert_eq!(task.cmd(), "/bin/sleep 60");
        }
        other => panic!("{:?}", other),
    }
    match state.list() {
        Reply::Tasks { tasks } => {
            let names: Vec<&str> = tasks.iter().map(|(n, _)| n.as_str()).collect();
            assert_eq!(names, vec!["web", "db"]);
            assert_eq!(tasks[1].1.cmd(), "/bin/sleep 61");
        }
        other => panic!("{:?}", other),
    }
}

#[test]
fn restart_is_stop_then_start() {
    let mut one = State::new();
    one.reload(config(), 0, 100);
    let mut two = State::new();
    two.reload(config(), 0, 100);

    let r = one.restart("web", 3, 103).unwrap();
    let s = two.stop("web", 3, 103).unwrap();
    let t = two.start("web", 3, 103).unwrap();
    assert_eq!(r.signals.len(), s.signals.len());
    assert_eq!(r.spawns.len(), t.spawns.len());
    let a = one.monitor(0);
    let b = two.monitor(0);
    assert_eq!(a.status(), b.status());
    assert_eq!(a.retry_count(), b.retry_count());
    assert_eq!(a.spawned_children(), b.spawned_children());
    assert_eq!(a.running().len(), b.running().len());
    assert_eq!(a.stopping().len(), b.stopping().len());
    assert_eq!(a.status(), Status::Stopping);
}

#[test]
fn cycles_run_until_nothing_works() {
    let mut state = State::new();
    state.reload(config(), 0, 100);
    assert_eq!(state.working(), vec![String::from("web")]);
    let exits = vec![ChildExit { id: 0, code: Some(0) }];
    state.cycle("web", &exits, 10, 110).unwrap();
    assert_eq!(state.working(), vec![String::from("web")]);
    assert_eq!(state.monitor(0).status(), Status::Active);
    let exits = vec![ChildExit { id: 1, code: Some(0) }];
    state.cycle("web", &exits, 20, 120).unwrap();
    assert_eq!(state.monitor(0).status(), Status::Finished);
    assert!(state.working().is_empty());
}

#[test]
fn task_without_process_finishes_through_the_registry() {
    let mut state = State::new();
    state.reload(vec![(String::from("idle"), task("/bin/true", true, 0))], 0, 1);
    assert_eq!(state.monitor(0).status(), Status::Active);
    assert_eq!(state.working(), vec![String::from("idle")]);
    state.cycle("idle", &Vec::new(), 1, 1).unwrap();
    assert_eq!(state.monitor(0).status(), Status::Finished);
    assert!(state.working().is_empty());
}

#[test]
fn kill_orders_through_the_registry() {
    let mut state = State::new();
    state.reload(config(), 0, 100);
    state.stop("web", 10, 100).unwrap();
    assert!(state.kill_orders("web", &Vec::new(), 10 + 2_000_000_000).is_empty());
    assert_eq!(state.kill_orders("web", &Vec::new(), 11 + 2_000_000_000), vec![0, 1]);
}

#[test]
fn stop_all_stops_every_task() {
    let mut state = State::new();
    state.reload(config(), 0, 100);
    state.start("db", 1, 101).unwrap();
    let orders = state.stop_all(7);
    assert_eq!(orders.len(), 2);
    assert_eq!(orders[0].taskid, "web");
    assert_eq!(orders[0].signals.iter().map(|s| s.child).collect::<Vec<u32>>(), vec![0, 1]);
    assert_eq!(orders[1].taskid, "db");
    assert_eq!(orders[1].signals.len(), 1);
    assert!(orders.iter().all(|o| o.spawns.is_empty()));
    for i in 0..state.len() {
        assert_eq!(state.monitor(i).status(), Status::Stopping);
        assert!(state.monitor(i).running().is_empty());
        assert!(state.monitor(i).stopping().iter().all(|c| c.stopped_at == 7));
    }
    assert!(State::new().stop_all(1).is_empty());
}

#[test]
fn the_loop_serves_events() {
    let mut server = Server::new();
    server.reload_config(config(), 0, 100);

    assert!(matches!(server.handle_event(Inter::Quit, 1, 1), Next::Quit));
    assert!(matches!(server.handle_event(Inter::Reload, 1, 1), Next::LoadConfig));
    assert!(matches!(
        server.handle_event(Inter::FromClient(Message::Reload), 1, 1),
        Next::Served(Handled::Enqueue(Inter::Reload))
    ));
    assert!(matches!(
        server.handle_event(Inter::FromClient(Message::Quit), 1, 1),
        Next::Served(Handled::Enqueue(Inter::Quit))
    ));
    match server.handle_event(Inter::FromClient(Message::Start { id: String::from("db") }), 1, 1) {
        Next::Served(Handled::Change(Ok(orders))) => assert_eq!(orders.spawns.len(), 1),
        other => panic!("{:?}", other),
    }
    match server.handle_event(Inter::FromClient(Message::Status { id: String::from("db") }), 1, 1) {
        Next::Served(Handled::Answer(Reply::Status { status, .. })) => assert_eq!(status, Status::Active),
        other => panic!("{:?}", other),
    }
    match server.handle_client_message(Message::Stop { id: String::from("db") }, 2, 2) {
        Handled::Change(Ok(orders)) => assert_eq!(orders.signals.len(), 1),
        other => panic!("{:?}", other),
    }
    match server.handle_client_message(Message::Restart { id: String::from("web") }, 2, 2) {
        Handled::Change(Ok(orders)) => assert_eq!(orders.signals.len(), 2),
        other => panic!("{:?}", other),
    }
    match server.handle_client_message(Message::Info { id: String::from("none") }, 2, 2) {
        Handled::Answer(Reply::Error { message }) => assert_eq!(message, "unknown taskid none"),
        other => panic!("{:?}", other),
    }
    match server.handle_client_message(Message::Start { id: String::from("none") }, 2, 2) {
        Handled::Change(Err(Reply::Error { message })) => assert_eq!(message, "unknown taskid none"),
        other => panic!("{:?}", other),
    }
    assert!(matches!(
        server.handle_client_message(Message::List, 2, 2),
        Handled::Answer(Reply::Tasks { .. })
    ));
    assert_eq!(server.state.len(), 2);
}

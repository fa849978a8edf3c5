use taskmaster::nix_utils::{Gid, SerdeOptionnalUidGid, Uid, UidGid};
use taskmaster::relaunch::Relaunch;
use taskmaster::signal::SIGTERM;
use taskmaster::signal::StopSignal;
use taskmaster::task::{
    codes_to_text, env_to_text, format_filename, get_current_timestamp, gid_to_text, mode_to_text,
    signal_to_text, uid_to_text, Task, TaskPartial,
};
use taskmaster::text::{
    pad_zeros, replace_all, split_on, text_is_less, to_decimal, to_octal, to_signed_decimal,
};

#[test]
fn test_get_current_timestamp() {
    let timestamp = get_current_timestamp();
    assert!(timestamp > 0);
    assert!(timestamp > 1_609_459_200); // timestamp since 2021-01-01 00:00:00
}

#[test]
fn test_format_filename() {
    let timestamp = 4242;
    let id = 69;

    assert_eq!(
        format_filename(&String::from("test-{.Id}"), id, timestamp),
        "test-69"
    );
    assert_eq!(
        format_filename(&String::from("test-{.Time}"), id, timestamp),
        "test-4242"
    );
    assert_eq!(
        format_filename(&String::from("test-{.Id}-{.Time}"), id, timestamp),
        "test-69-4242"
    );
    assert_eq!(
        format_filename(&String::from("test-{.Id}-{.Time}-{.Id}"), id, timestamp),
        "test-69-4242-69"
    );
}

#[test]
fn format_filename_edge_cases() {
    assert_eq!(format_filename("/dev/null", 3, 9), "/dev/null");
    assert_eq!(format_filename("", 3, 9), "");
    assert_eq!(format_filename("{.Id}", 0, 0), "0");
    assert_eq!(format_filename("{.Id", 1, 2), "{.Id");
    assert_eq!(format_filename("{.Time}{.Time}", 1, 20), "2020");
    assert_eq!(format_filename("{.id}", 1, 2), "{.id}");
    assert_eq!(format_filename("a{.Id}b", u32::MAX, u64::MAX), "a4294967295b");
    assert_eq!(format_filename("{.Time}", 1, u64::MAX), "18446744073709551615");
    assert_eq!(format_filename("é{.Id}ü", 5, 0), "é5ü");
}

#[test]
fn decimal_agrees_with_std() {
    for n in [0u64, 1, 9, 10, 11, 99, 100, 101, 1234567890, u64::MAX] {
        assert_eq!(to_decimal(n), n.to_string());
    }
}

#[test]
fn replace_agrees_with_std() {
    let cases = [
        ("", "ab", "x"),
        ("ab", "ab", "x"),
        ("aab", "ab", "x"),
        ("ababab", "ab", "xyz"),
        ("aaa", "aa", "b"),
        ("abc", "abcd", "x"),
        ("xabcx", "abc", ""),
        ("日本語本", "本", "ab"),
    ];
    for (s, pattern, with) in cases {
        assert_eq!(replace_all(s, pattern, with), s.replace(pattern, with));
    }
    assert_eq!(replace_all("abc", "", "x"), "abc");
}

#[test]
fn split_agrees_with_std() {
    for s in ["", " ", "a", "a b", "a  b", " a b ", "/bin/sh -c echo", "é ü"] {
        let want: Vec<String> = s.split(' ').map(String::from).collect();
        assert_eq!(split_on(s, ' '), want);
    }
}

#[test]
fn defaults_of_a_task() {
    let task = Task::from(TaskPartial::new(String::from("/bin/ls -l /tmp")));
    assert_eq!(task.cmd(), "/bin/ls -l /tmp");
    assert_eq!(task.args(), &vec![String::from("/bin/ls"), String::from("-l"), String::from("/tmp")]);
    assert_eq!(task.autostart(), false);
    assert_eq!(task.numprocess(), 1);
    assert_eq!(task.umask(), 0);
    assert_eq!(task.workingdir(), ".");
    assert_eq!(task.stopsignal().number, SIGTERM);
    assert_eq!(task.stopdelay(), 2);
    assert_eq!(task.stdout(), "/dev/null");
    assert_eq!(task.stderr(), "/dev/null");
    assert_eq!(task.retry(), 0);
    assert_eq!(task.successdelay(), 0);
    assert_eq!(task.exitcodes(), &vec![0]);
    assert_eq!(task.restart(), Relaunch::Never);
    assert!(task.env().is_empty());
    assert_eq!(task.uid(), None);
    assert_eq!(task.gid(), None);
}

#[test]
fn defaults_one_by_one() {
    assert_eq!(taskmaster::default::autostart(), false);
    assert_eq!(taskmaster::default::numprocess(), 1);
    assert_eq!(taskmaster::default::umask(), 0);
    assert_eq!(taskmaster::default::workdir(), ".");
    assert_eq!(taskmaster::default::relaunch_mode(), Relaunch::Never);
    assert_eq!(taskmaster::default::retry(), 0);
    assert_eq!(taskmaster::default::exit_codes(), vec![0]);
    assert_eq!(taskmaster::default::success_delay(), 0);
    assert_eq!(taskmaster::default::stop_signal().number, SIGTERM);
    assert_eq!(taskmaster::default::stop_delay(), 2);
    assert_eq!(taskmaster::default::stdout(), "/dev/null");
    assert_eq!(taskmaster::default::stderr(), "/dev/null");
    assert!(taskmaster::default::env().is_empty());
}

#[test]
fn command_of_a_child() {
    let mut p = TaskPartial::new(String::from("/bin/sh -c  echo"));
    p.stdout = String::from("/tmp/out-{.Id}-{.Time}");
    p.stderr = String::from("/tmp/err-{.Time}");
    p.workingdir = String::from("/srv");
    p.umask = 0o22;
    p.uid = Some(Uid::from_raw(1000));
    p.env = vec![(String::from("A"), String::from("1")), (String::from("B"), String::from(""))];
    let task = Task::from(p);
    let c = task.get_command(12, 345);
    assert_eq!(c.program, "/bin/sh");
    assert_eq!(c.args, vec![String::from("-c"), String::from(""), String::from("echo")]);
    assert_eq!(c.stdout, "/tmp/out-12-345");
    assert_eq!(c.stderr, "/tmp/err-345");
    assert_eq!(c.workingdir, "/srv");
    assert_eq!(c.umask, Some(0o22));
    assert_eq!(c.uid, Some(1000));
    assert_eq!(c.gid, None);
    assert_eq!(c.env, vec![(String::from("A"), String::from("1")), (String::from("B"), String::from(""))]);

    let plain = Task::from(TaskPartial::new(String::from("ls")));
    let c = plain.get_command(0, 0);
    assert_eq!(c.program, "ls");
    assert!(c.args.is_empty());
    assert_eq!(c.umask, None);

    let empty = Task::from(TaskPartial::new(String::new()));
    assert_eq!(empty.get_command(0, 0).program, "");
}

#[test]
fn tasks_are_equal_field_by_field() {
    let base = || TaskPartial::new(String::from("/bin/ls"));
    let same = Task::from(base());
    assert!(same == Task::from(base()));
    assert!(same.same(&same.duplicate()));

    let mut p = base();
    p.cmd = String::from("/bin/ls -l");
    assert!(!(same == Task::from(p)));
    let mut p = base();
    p.autostart = true;
    assert!(same != Task::from(p));
    let mut p = base();
    p.numprocess = 2;
    assert!(same != Task::from(p));
    let mut p = base();
    p.umask = 0o77;
    assert!(same != Task::from(p));
    let mut p = base();
    p.workingdir = String::from("/");
    assert!(same != Task::from(p));
    let mut p = base();
    p.stopsignal.number = 3;
    assert!(same != Task::from(p));
    let mut p = base();
    p.stopdelay = 3;
    assert!(same != Task::from(p));
    let mut p = base();
    p.stdout = String::from("/tmp/o");
    assert!(same != Task::from(p));
    let mut p = base();
    p.stderr = String::from("/tmp/e");
    assert!(same != Task::from(p));
    let mut p = base();
    p.retry = 1;
    assert!(same != Task::from(p));
    let mut p = base();
    p.successdelay = 1;
    assert!(same != Task::from(p));
    let mut p = base();
    p.exitcodes = vec![0, 1];
    assert!(same != Task::from(p));
    let mut p = base();
    p.restart = Relaunch::Always;
    assert!(same != Task::from(p));
    let mut p = base();
    p.env = vec![(String::from("K"), String::from("v"))];
    assert!(same != Task::from(p));
    let mut p = base();
    p.uid = Some(Uid { raw: 0 });
    assert!(same != Task::from(p));
    let mut p = base();
    p.gid = Some(Gid { raw: 0 });
    assert!(same != Task::from(p));
}

#[test]
fn partial_round_trip() {
    let mut p = TaskPartial::new(String::from("/bin/echo a b"));
    p.retry = 7;
    p.exitcodes = vec![0, 2];
    let task = Task::from(p);
    let copy = task.duplicate();
    let back = TaskPartial::from(task);
    assert_eq!(back.cmd, "/bin/echo a b");
    assert_eq!(back.retry, 7);
    assert!(Task::from(back) == copy);
}

#[test]
fn exit_codes_of_a_task() {
    let mut p = TaskPartial::new(String::from("x"));
    p.exitcodes = vec![0, 2];
    let task = Task::from(p);
    assert!(task.expects_exit_code(0));
    assert!(task.expects_exit_code(2));
    assert!(!task.expects_exit_code(1));
    assert!(!task.check_exit_status(Some(0)));
    assert!(!task.check_exit_status(Some(2)));
    assert!(task.check_exit_status(Some(1)));
    assert!(task.check_exit_status(None));
    let single = Task::from(TaskPartial::new(String::from("x")));
    assert!(!single.check_exit_status(Some(0)));
    assert!(single.check_exit_status(Some(1)));
    assert!(single.check_exit_status(None));
    let mut p = TaskPartial::new(String::from("x"));
    p.exitcodes = Vec::new();
    let none = Task::from(p);
    assert!(none.check_exit_status(Some(0)));
    assert!(none.check_exit_status(None));
}

#[test]
fn relaunch_names() {
    assert_eq!(Relaunch::Never.to_string(), "never");
    assert_eq!(Relaunch::Always.to_string(), "always");
    assert_eq!(Relaunch::OnError.to_string(), "on-error");
    for mode in [Relaunch::Never, Relaunch::Always, Relaunch::OnError] {
        assert_eq!(Relaunch::from_name(mode.name()), Some(mode));
    }
    assert_eq!(Relaunch::from_name("onerror"), None);
    assert_eq!(Relaunch::from_name(""), None);
}

#[test]
fn users_and_groups_by_number() {
    assert_eq!(Uid::from_raw(7).to_raw(), 7);
    assert_eq!(Gid::from_raw(u32::MAX).to_raw(), u32::MAX);
    assert_eq!(SerdeOptionnalUidGid::<Uid>::deserialize(Some(5)), Some(Uid { raw: 5 }));
    assert_eq!(SerdeOptionnalUidGid::<Gid>::deserialize(None), None);
    assert_eq!(SerdeOptionnalUidGid::<Gid>::serialize(&Some(Gid { raw: 9 })), Some(9));
    assert_eq!(SerdeOptionnalUidGid::<Uid>::serialize(&None), None);
    let mut p = TaskPartial::new(String::from("id"));
    p.uid = SerdeOptionnalUidGid::deserialize(Some(12));
    p.gid = SerdeOptionnalUidGid::deserialize(Some(34));
    let task = Task::from(p);
    assert_eq!(task.uid(), Some(Uid { raw: 12 }));
    assert_eq!(task.gid(), Some(Gid { raw: 34 }));
    let c = task.get_command(0, 0);
    assert_eq!(c.uid, Some(12));
    assert_eq!(c.gid, Some(34));
}

#[test]
fn numbers_written_out() {
    for n in [0u64, 7, 8, 0o22, 0o777, 0o7777, u32::MAX as u64, u64::MAX] {
        assert_eq!(to_octal(n), format!("{:o}", n));
    }
    for n in [0i32, 1, -1, 10, -10, 255, i32::MAX, i32::MIN] {
        assert_eq!(to_signed_decimal(n), n.to_string());
    }
    assert_eq!(pad_zeros(String::from("7"), 3), "007");
    assert_eq!(pad_zeros(String::from("777"), 3), "777");
    assert_eq!(pad_zeros(String::from("7777"), 3), "7777");
    assert_eq!(pad_zeros(String::new(), 2), "00");
    assert_eq!(pad_zeros(String::from("a"), 0), "a");
    for mode in [0u32, 1, 0o22, 0o644, 0o7777, 0o10000] {
        assert_eq!(mode_to_text(mode), format!("{:#05o}", mode));
    }
    assert_eq!(mode_to_text(0o22), "0o022");
}

#[test]
fn lists_written_out() {
    for codes in [vec![], vec![0], vec![0, 2], vec![-1, 0, 255, i32::MIN]] {
        assert_eq!(codes_to_text(&codes), format!("{:?}", codes));
    }
    assert_eq!(codes_to_text(&vec![0, 2]), "[0, 2]");
    let env = vec![
        (String::from("A"), String::from("1")),
        (String::from("B \"q\""), String::from("")),
        (String::from("C"), String::from("tab\there\n")),
    ];
    let map: std::collections::BTreeMap<String, String> = env.iter().cloned().collect();
    assert_eq!(env_to_text(&env), format!("{:?}", map));
    assert_eq!(env_to_text(&Vec::new()), "{}");
    assert_eq!(env_to_text(&env[..1].to_vec()), "{\"A\": \"1\"}");
    assert_eq!(uid_to_text(None), "None");
    assert_eq!(gid_to_text(None), "None");
    assert_eq!(
        uid_to_text(Some(Uid { raw: 1000 })),
        format!("{:?}", Some(nix::unistd::Uid::from_raw(1000)))
    );
    assert_eq!(
        gid_to_text(Some(Gid { raw: 0 })),
        format!("{:?}", Some(nix::unistd::Gid::from_raw(0)))
    );
    assert_eq!(signal_to_text(StopSignal { number: 15 }), "SIGTERM");
    assert_eq!(
        signal_to_text(StopSignal { number: 10 }),
        format!("{}", nix::sys::signal::Signal::SIGUSR1)
    );
    assert_eq!(signal_to_text(StopSignal { number: -7 }), "-7");
    assert_eq!(signal_to_text(StopSignal { number: 0 }), "0");
}

#[test]
fn task_written_out() {
    let task = Task::from(TaskPartial::new(String::from("/bin/ls -l")));
    assert_eq!(
        task.to_string(),
        "Command: /bin/ls -l\nNumber of processes: 1\nAutostart: false\nUmask: 0o000\nWorking Directory: \".\"\nStdout: \"/dev/null\"\nStderr: \"/dev/null\"\nStop signal: SIGTERM\nStop delay: 2\nretry: 0\nSuccess Delay: 0\nExit Codes: [0]\nRestart: never\nEnv: {}\nPermission: uid: None, gid: None"
    );
    let mut p = TaskPartial::new(String::from("run"));
    p.autostart = true;
    p.numprocess = 3;
    p.umask = 0o27;
    p.workingdir = String::from("/srv/my \"app\"");
    p.stopsignal = StopSignal { number: 3 };
    p.stopdelay = 10;
    p.stdout = String::from("/tmp/out-{.Id}");
    p.retry = 4;
    p.successdelay = 5;
    p.exitcodes = vec![0, -2];
    p.restart = Relaunch::OnError;
    p.env = vec![(String::from("K"), String::from("v"))];
    p.uid = Some(Uid { raw: 33 });
    p.gid = Some(Gid { raw: 44 });
    let want = format!(
        "Command: {}\nNumber of processes: {}\nAutostart: {}\nUmask: {:#05o}\nWorking Directory: {:?}\nStdout: {:?}\nStderr: {:?}\nStop signal: {}\nStop delay: {}\nretry: {}\nSuccess Delay: {}\nExit Codes: {:?}\nRestart: {}\nEnv: {:?}\nPermission: uid: {:?}, gid: {:?}",
        "run",
        3,
        true,
        0o27,
        std::path::PathBuf::from("/srv/my \"app\""),
        "/tmp/out-{.Id}",
        "/dev/null",
        nix::sys::signal::Signal::SIGQUIT,
        10,
        4,
        5,
        vec![0, -2],
        "on-error",
        [("K", "v")].iter().cloned().collect::<std::collections::BTreeMap<&str, &str>>(),
        Some(nix::unistd::Uid::from_raw(33)),
        Some(nix::unistd::Gid::from_raw(44)),
    );
    assert_eq!(Task::from(p).to_string(), want);
}

fn pairs(list: &[(&str, &str)]) -> Vec<(String, String)> {
    list.iter().map(|(k, v)| (k.to_string(), v.to_string())).collect()
}

#[test]
fn texts_in_order() {
    let texts = ["", "A", "AB", "B", "a", "ab", "b", "é", "z", "\u{10000}", "\u{ffff}"];
    for a in texts {
        for b in texts {
            assert_eq!(text_is_less(a, b), a < b);
        }
    }
}

#[test]
fn the_environment_is_a_map() {
    let with = |env: &[(&str, &str)]| {
        let mut p = TaskPartial::new(String::from("x"));
        p.env = pairs(env);
        Task::from(p)
    };
    let sorted = with(&[("A", "1"), ("B", "2"), ("C", "3")]);
    assert_eq!(sorted.env(), &pairs(&[("A", "1"), ("B", "2"), ("C", "3")]));
    // the order in which the variables are given does not count
    assert!(sorted == with(&[("C", "3"), ("A", "1"), ("B", "2")]));
    assert!(sorted == with(&[("B", "2"), ("C", "3"), ("A", "1")]));
    assert_eq!(with(&[("C", "3"), ("B", "2"), ("A", "1")]).env(), sorted.env());
    // of two values for one name the later counts
    assert_eq!(with(&[("A", "1"), ("B", "2"), ("A", "9")]).env(), &pairs(&[("A", "9"), ("B", "2")]));
    assert!(sorted != with(&[("A", "1"), ("B", "2"), ("C", "4")]));
    assert!(sorted != with(&[("A", "1"), ("B", "2")]));
    assert!(with(&[]).env().is_empty());
    let map: std::collections::BTreeMap<String, String> =
        pairs(&[("b", "1"), ("a", "2"), ("B", "3"), ("", "4"), ("a", "5")]).into_iter().collect();
    let want: Vec<(String, String)> = map.into_iter().collect();
    assert_eq!(with(&[("b", "1"), ("a", "2"), ("B", "3"), ("", "4"), ("a", "5")]).env(), &want);
    assert_eq!(sorted.get_command(0, 0).env, pairs(&[("A", "1"), ("B", "2"), ("C", "3")]));
}

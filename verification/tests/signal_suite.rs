use signal_hook::consts::{SIGCONT, SIGHUP, SIGINT, SIGQUIT, SIGTERM};
use taskmaster::message::Inter;
use taskmaster::nix_utils::{NixError, SerdeMode, SerdeSignal};
use taskmaster::server::{handle_signals, watched_signals};
use taskmaster::error::Taskmaster;
use taskmaster::signal::{complete_signal_name, sigstr, stop_signal_from_name, Signal};

#[test]
fn test_sigstr() {
    assert_eq!(sigstr(SIGTERM), "SIGTERM");
    assert_eq!(sigstr(SIGQUIT), "SIGQUIT");
    assert_eq!(sigstr(SIGINT), "SIGINT");
    assert_eq!(sigstr(SIGHUP), "SIGHUP");
    assert_eq!(sigstr(SIGCONT), "unknown");
}

#[test]
fn signal_numbers_are_the_platform_s() {
    assert_eq!(taskmaster::signal::SIGHUP, SIGHUP);
    assert_eq!(taskmaster::signal::SIGINT, SIGINT);
    assert_eq!(taskmaster::signal::SIGQUIT, SIGQUIT);
    assert_eq!(taskmaster::signal::SIGTERM, SIGTERM);
    assert_eq!(taskmaster::default::stop_signal().number, nix::sys::signal::Signal::SIGTERM as i32);
}

#[test]
fn signals_become_events() {
    assert!(matches!(handle_signals(SIGHUP), Some(Inter::Reload)));
    assert!(matches!(handle_signals(SIGINT), Some(Inter::Quit)));
    assert!(matches!(handle_signals(SIGTERM), Some(Inter::Quit)));
    assert!(matches!(handle_signals(SIGQUIT), Some(Inter::Quit)));
    assert!(handle_signals(SIGCONT).is_none());
    assert_eq!(watched_signals(), vec![SIGHUP, SIGINT, SIGTERM, SIGQUIT]);
}

#[test]
fn signal_names_with_and_without_prefix() {
    assert_eq!(complete_signal_name("TERM"), "SIGTERM");
    assert_eq!(complete_signal_name("SIGTERM"), "SIGTERM");
    assert_eq!(complete_signal_name("SI"), "SIGSI");
    assert_eq!(complete_signal_name(""), "SIG");
    assert_eq!(complete_signal_name("sigterm"), "SIGsigterm");

    let term = SerdeSignal::deserialize("TERM").unwrap();
    assert_eq!(term.number, nix::sys::signal::Signal::SIGTERM as i32);
    assert_eq!(SerdeSignal::deserialize("SIGTERM").unwrap(), term);
    assert_eq!(SerdeSignal::deserialize("QUIT").unwrap().number, nix::sys::signal::Signal::SIGQUIT as i32);
    assert_eq!(SerdeSignal::deserialize("SIGUSR1").unwrap().number, nix::sys::signal::Signal::SIGUSR1 as i32);
    assert_eq!(SerdeSignal::deserialize("KILL").unwrap().number, 9);
    assert_eq!(stop_signal_from_name("HUP").unwrap().number, 1);
}

#[test]
fn signal_names_are_written_in_full() {
    for raw in ["TERM", "SIGHUP", "USR2", "KILL", "SIGCHLD"] {
        let signal = SerdeSignal::deserialize(raw).unwrap();
        let name = SerdeSignal::serialize(&signal).unwrap();
        assert_eq!(name, complete_signal_name(raw));
        assert_eq!(SerdeSignal::deserialize(&name).unwrap(), signal);
    }
    assert_eq!(SerdeSignal::serialize(&taskmaster::default::stop_signal()).unwrap(), "SIGTERM");
    assert_eq!(SerdeSignal::serialize(&taskmaster::signal::StopSignal { number: 0 }), None);
    assert_eq!(SerdeSignal::serialize(&taskmaster::signal::StopSignal { number: -3 }), None);
    assert_eq!(SerdeSignal::serialize(&taskmaster::signal::StopSignal { number: 4096 }), None);
    assert_eq!(SerdeMode::serialize(&0o644), 0o644);
}

#[test]
fn unknown_signal_is_rejected() {
    for raw in ["NOPE", "", "term", "SIGNOPE", "15", "SIG"] {
        match SerdeSignal::deserialize(raw) {
            Err(NixError::InvalidSignal(name)) => assert_eq!(name, raw),
            other => panic!("{:?}", other),
        }
        assert!(stop_signal_from_name(raw).is_none());
    }
    assert_eq!(SerdeSignal::deserialize("NOPE").unwrap_err().to_string(), "invalid signal NOPE");
}

#[test]
fn file_mode_masks() {
    assert_eq!(SerdeMode::deserialize(0).unwrap(), 0);
    assert_eq!(SerdeMode::deserialize(0o22).unwrap(), 0o22);
    assert_eq!(SerdeMode::deserialize(0o7777).unwrap(), 0o7777);
    assert!(matches!(SerdeMode::deserialize(0o10000), Err(NixError::InvalidMode(0o10000))));
    assert!(matches!(SerdeMode::deserialize(u32::MAX), Err(NixError::InvalidMode(u32::MAX))));
    assert_eq!(SerdeMode::deserialize(0o10000).unwrap_err().to_string(), "invalid mode 4096");
}

#[test]
fn short_signal_names() {
    let names = [
        ("HUP", Signal::SIGHUP),
        ("INT", Signal::SIGINT),
        ("QUIT", Signal::SIGQUIT),
        ("ILL", Signal::SIGILL),
        ("TRAP", Signal::SIGTRAP),
        ("ABRT", Signal::SIGABRT),
        ("EMT", Signal::SIGEMT),
        ("FPE", Signal::SIGFPE),
        ("KILL", Signal::SIGKILL),
        ("BUS", Signal::SIGBUS),
        ("SEGV", Signal::SIGSEGV),
        ("SYS", Signal::SIGSYS),
        ("PIPE", Signal::SIGPIPE),
        ("ALRM", Signal::SIGALRM),
        ("TERM", Signal::SIGTERM),
        ("URG", Signal::SIGURG),
        ("STOP", Signal::SIGSTOP),
        ("TSTP", Signal::SIGTSTP),
        ("CONT", Signal::SIGCONT),
        ("CHLD", Signal::SIGCHLD),
        ("TTIN", Signal::SIGTTIN),
        ("TTOU", Signal::SIGTTOU),
        ("IO", Signal::SIGIO),
        ("XCPU", Signal::SIGXCPU),
        ("XFSZ", Signal::SIGXFSZ),
        ("VTAL", Signal::SIGVTAL),
        ("PROF", Signal::SIGPROF),
        ("WINC", Signal::SIGWINC),
        ("INFO", Signal::SIGINFO),
        ("USR1", Signal::SIGUSR1),
        ("USR2", Signal::SIGUSR2),
    ];
    for (name, signal) in names {
        assert_eq!(Signal::from_str(name).unwrap(), signal);
    }
    for name in ["", "SIGTERM", "term", "TERM ", "USR3", "VTALRM"] {
        assert!(matches!(Signal::from_str(name), Err(Taskmaster::Signal)));
    }
}

//! Signals: the ones the supervisor itself listens for, and the one a task
//! asks to be stopped with.

use crate::error::Taskmaster;
use crate::text::{has_prefix, same_text};
use vstd::prelude::*;
use vstd::string::*;

verus! {

/// Hang-up: the supervisor reloads its configuration.
pub const SIGHUP: i32 = 1;

/// Interrupt from the keyboard: the supervisor quits.
pub const SIGINT: i32 = 2;

/// Quit from the keyboard: the supervisor quits.
pub const SIGQUIT: i32 = 3;

/// Termination request: the supervisor quits.
pub const SIGTERM: i32 = 15;

/// The name of a signal the supervisor listens for, `"unknown"` for any
/// other number.
pub open spec fn spec_sigstr(signum: i32) -> Seq<char> {
    if signum == SIGINT {
        "SIGINT"@
    } else if signum == SIGTERM {
        "SIGTERM"@
    } else if signum == SIGHUP {
        "SIGHUP"@
    } else if signum == SIGQUIT {
        "SIGQUIT"@
    } else {
        "unknown"@
    }
}

pub fn sigstr(signum: i32) -> (r: &'static str)
    ensures
        r@ == spec_sigstr(signum),
{
    if signum == SIGINT {
        "SIGINT"
    } else if signum == SIGTERM {
        "SIGTERM"
    } else if signum == SIGHUP {
        "SIGHUP"
    } else if signum == SIGQUIT {
        "SIGQUIT"
    } else {
        "unknown"
    }
}

/// A signal by the name that the short form of a configuration gives it.
#[derive(Clone, Copy, Debug, PartialEq, Eq, Structural)]
pub enum Signal {
    SIGHUP,
    SIGINT,
    SIGQUIT,
    SIGILL,
    SIGTRAP,
    SIGABRT,
    SIGEMT,
    SIGFPE,
    SIGKILL,
    SIGBUS,
    SIGSEGV,
    SIGSYS,
    SIGPIPE,
    SIGALRM,
    SIGTERM,
    SIGURG,
    SIGSTOP,
    SIGTSTP,
    SIGCONT,
    SIGCHLD,
    SIGTTIN,
    SIGTTOU,
    SIGIO,
    SIGXCPU,
    SIGXFSZ,
    SIGVTAL,
    SIGPROF,
    SIGWINC,
    SIGINFO,
    SIGUSR1,
    SIGUSR2,
}

impl Signal {
    /// The signal that the short name `s` stands for, if any: the name is
    /// the signal's without its `SIG`.
    pub open spec fn spec_from_str(s: Seq<char>) -> Option<Signal> {
        if s == "HUP"@ {
            Some(Signal::SIGHUP)
        } else if s == "INT"@ {
            Some(Signal::SIGINT)
        } else if s == "QUIT"@ {
            Some(Signal::SIGQUIT)
        } else if s == "ILL"@ {
            Some(Signal::SIGILL)
        } else if s == "TRAP"@ {
            Some(Signal::SIGTRAP)
        } else if s == "ABRT"@ {
            Some(Signal::SIGABRT)
        } else if s == "EMT"@ {
            Some(Signal::SIGEMT)
        } else if s == "FPE"@ {
            Some(Signal::SIGFPE)
        } else if s == "KILL"@ {
            Some(Signal::SIGKILL)
        } else if s == "BUS"@ {
            Some(Signal::SIGBUS)
        } else if s == "SEGV"@ {
            Some(Signal::SIGSEGV)
        } else if s == "SYS"@ {
            Some(Signal::SIGSYS)
        } else if s == "PIPE"@ {
            Some(Signal::SIGPIPE)
        } else if s == "ALRM"@ {
            Some(Signal::SIGALRM)
        } else if s == "TERM"@ {
            Some(Signal::SIGTERM)
        } else if s == "URG"@ {
            Some(Signal::SIGURG)
        } else if s == "STOP"@ {
            Some(Signal::SIGSTOP)
        } else if s == "TSTP"@ {
            Some(Signal::SIGTSTP)
        } else if s == "CONT"@ {
            Some(Signal::SIGCONT)
        } else if s == "CHLD"@ {
            Some(Signal::SIGCHLD)
        } else if s == "TTIN"@ {
            Some(Signal::SIGTTIN)
        } else if s == "TTOU"@ {
            Some(Signal::SIGTTOU)
        } else if s == "IO"@ {
            Some(Signal::SIGIO)
        } else if s == "XCPU"@ {
            Some(Signal::SIGXCPU)
        } else if s == "XFSZ"@ {
            Some(Signal::SIGXFSZ)
        } else if s == "VTAL"@ {
            Some(Signal::SIGVTAL)
        } else if s == "PROF"@ {
            Some(Signal::SIGPROF)
        } else if s == "WINC"@ {
            Some(Signal::SIGWINC)
        } else if s == "INFO"@ {
            Some(Signal::SIGINFO)
        } else if s == "USR1"@ {
            Some(Signal::SIGUSR1)
        } else if s == "USR2"@ {
            Some(Signal::SIGUSR2)
        } else {
            None
        }
    }

    /// Reads a signal's short name; a text that is no such name is an
    /// error.
    pub fn from_str(s: &str) -> (r: Result<Signal, Taskmaster>)
        ensures
            match Self::spec_from_str(s@) {
                Some(signal) => r == Ok::<Signal, Taskmaster>(signal),
                None => r == Err::<Signal, Taskmaster>(Taskmaster::Signal),
            },
    {
        if same_text(s, "HUP") {
            Ok(Signal::SIGHUP)
        } else if same_text(s, "INT") {
            Ok(Signal::SIGINT)
        } else if same_text(s, "QUIT") {
            Ok(Signal::SIGQUIT)
        } else if same_text(s, "ILL") {
            Ok(Signal::SIGILL)
        } else if same_text(s, "TRAP") {
            Ok(Signal::SIGTRAP)
        } else if same_text(s, "ABRT") {
            Ok(Signal::SIGABRT)
        } else if same_text(s, "EMT") {
            Ok(Signal::SIGEMT)
        } else if same_text(s, "FPE") {
            Ok(Signal::SIGFPE)
        } else if same_text(s, "KILL") {
            Ok(Signal::SIGKILL)
        } else if same_text(s, "BUS") {
            Ok(Signal::SIGBUS)
        } else if same_text(s, "SEGV") {
            Ok(Signal::SIGSEGV)
        } else if same_text(s, "SYS") {
            Ok(Signal::SIGSYS)
        } else if same_text(s, "PIPE") {
            Ok(Signal::SIGPIPE)
        } else if same_text(s, "ALRM") {
            Ok(Signal::SIGALRM)
        } else if same_text(s, "TERM") {
            Ok(Signal::SIGTERM)
        } else if same_text(s, "URG") {
            Ok(Signal::SIGURG)
        } else if same_text(s, "STOP") {
            Ok(Signal::SIGSTOP)
        } else if same_text(s, "TSTP") {
            Ok(Signal::SIGTSTP)
        } else if same_text(s, "CONT") {
            Ok(Signal::SIGCONT)
        } else if same_text(s, "CHLD") {
            Ok(Signal::SIGCHLD)
        } else if same_text(s, "TTIN") {
            Ok(Signal::SIGTTIN)
        } else if same_text(s, "TTOU") {
            Ok(Signal::SIGTTOU)
        } else if same_text(s, "IO") {
            Ok(Signal::SIGIO)
        } else if same_text(s, "XCPU") {
            Ok(Signal::SIGXCPU)
        } else if same_text(s, "XFSZ") {
            Ok(Signal::SIGXFSZ)
        } else if same_text(s, "VTAL") {
            Ok(Signal::SIGVTAL)
        } else if same_text(s, "PROF") {
            Ok(Signal::SIGPROF)
        } else if same_text(s, "WINC") {
            Ok(Signal::SIGWINC)
        } else if same_text(s, "INFO") {
            Ok(Signal::SIGINFO)
        } else if same_text(s, "USR1") {
            Ok(Signal::SIGUSR1)
        } else if same_text(s, "USR2") {
            Ok(Signal::SIGUSR2)
        } else {
            Err(Taskmaster::Signal)
        }
    }
}

/// The signal a task's children are asked to stop with, by its number on
/// this platform.
#[derive(Clone, Copy, Debug, PartialEq, Eq, Structural)]
pub struct StopSignal {
    pub number: i32,
}

/// The number of the signal that nix's `Signal::from_str` reads `name` as,
/// `None` where it rejects the name.
pub uninterp spec fn nix_signal(name: Seq<char>) -> Option<i32>;

/// Calls nix's `Signal::from_str`, which matches the whole of `name` against
/// the upper-case names of the platform's signals (`SIGHUP`, `SIGTERM`, ...),
/// and turns the signal it finds into its number. The outcome depends on
/// `name` alone and is not proved here.
#[verifier::external_body]
fn signal_from_name(name: &str) -> (r: Option<i32>)
    ensures
        r == nix_signal(name@),
{
    match <nix::sys::signal::Signal as std::str::FromStr>::from_str(name) {
        Ok(signal) => Some(signal as i32),
        Err(_) => None,
    }
}

/// The name that nix's `Signal::as_str` gives the signal numbered `number`,
/// `None` where `Signal::try_from` finds no signal of that number.
pub uninterp spec fn nix_signal_name(number: i32) -> Option<Seq<char>>;

/// Calls nix's `Signal::as_str` on the signal that `Signal::try_from` makes
/// of `number`. The name is the signal's upper-case name with its `SIG`
/// prefix; it depends on `number` alone and is not proved here.
#[verifier::external_body]
pub(crate) fn name_of_signal(number: i32) -> (r: Option<String>)
    ensures
        match r {
            Some(name) => nix_signal_name(number) == Some(name@),
            None => nix_signal_name(number).is_none(),
        },
{
    match <nix::sys::signal::Signal as core::convert::TryFrom<i32>>::try_from(number) {
        Ok(signal) => Some(signal.as_str().to_string()),
        Err(_) => None,
    }
}

/// The prefix that every full signal name begins with.
pub open spec fn signal_prefix() -> Seq<char> {
    seq!['S', 'I', 'G']
}

/// The full name of the signal that a configuration writes as `raw`: `raw`
/// itself where it already begins with `SIG`, else `SIG` followed by `raw`.
pub open spec fn full_signal_name(raw: Seq<char>) -> Seq<char> {
    if raw.len() >= 3 && raw.subrange(0, 3) == signal_prefix() {
        raw
    } else {
        signal_prefix() + raw
    }
}

/// Writes a signal's name in full: `TERM` becomes `SIGTERM`, and `SIGTERM`
/// stays.
pub fn complete_signal_name(raw: &str) -> (r: String)
    ensures
        r@ == full_signal_name(raw@),
{
    proof {
        reveal_strlit("SIG");
        assert("SIG"@ =~= signal_prefix());
    }
    if has_prefix(raw, "SIG") {
        String::from_str(raw)
    } else {
        String::from_str("SIG").concat(raw)
    }
}

/// What a configured signal name resolves to, given what the lookup of its
/// full name returned.
pub open spec fn resolved_signal(found: Option<i32>) -> Option<StopSignal> {
    match found {
        Some(number) => Some(StopSignal { number }),
        None => None,
    }
}

/// The stop signal for a lookup's result: the signal with the number found,
/// or nothing where the name was not known.
pub fn stop_signal_from_lookup(found: Option<i32>) -> (r: Option<StopSignal>)
    ensures
        r == resolved_signal(found),
{
    match found {
        Some(number) => Some(StopSignal { number }),
        None => None,
    }
}

/// Reads a signal name, with or without the `SIG` prefix.
pub fn stop_signal_from_name(raw: &str) -> (r: Option<StopSignal>)
    ensures
        r == resolved_signal(nix_signal(full_signal_name(raw@))),
{
    let full = complete_signal_name(raw);
    stop_signal_from_lookup(signal_from_name(full.as_str()))
}

} // verus!

//! The value of each setting that a task's configuration leaves out.

use crate::relaunch::Relaunch;
use crate::signal::{StopSignal, SIGTERM};
use vstd::prelude::*;
use vstd::string::*;

verus! {

pub fn autostart() -> (r: bool)
    ensures
        r == false,
{
    false
}

pub fn numprocess() -> (r: u32)
    ensures
        r == 1,
{
    1
}

pub fn umask() -> (r: u32)
    ensures
        r == 0,
{
    0
}

pub fn workdir() -> (r: String)
    ensures
        r@ == "."@,
{
    String::from_str(".")
}

pub fn relaunch_mode() -> (r: Relaunch)
    ensures
        r == Relaunch::Never,
{
    Relaunch::Never
}

pub fn retry() -> (r: u32)
    ensures
        r == 0,
{
    0
}

pub fn exit_codes() -> (r: Vec<i32>)
    ensures
        r@ == seq![0i32],
{
    let mut codes: Vec<i32> = Vec::new();
    codes.push(0);
    assert(codes@ =~= seq![0i32]);
    codes
}

pub fn success_delay() -> (r: u32)
    ensures
        r == 0,
{
    0
}

pub fn stop_signal() -> (r: StopSignal)
    ensures
        r.number == SIGTERM,
{
    StopSignal { number: SIGTERM }
}

pub fn stop_delay() -> (r: u32)
    ensures
        r == 2,
{
    2
}

pub fn stdout() -> (r: String)
    ensures
        r@ == "/dev/null"@,
{
    String::from_str("/dev/null")
}

pub fn stderr() -> (r: String)
    ensures
        r@ == "/dev/null"@,
{
    String::from_str("/dev/null")
}

pub fn env() -> (r: Vec<(String, String)>)
    ensures
        r@.len() == 0,
{
    Vec::new()
}

} // verus!

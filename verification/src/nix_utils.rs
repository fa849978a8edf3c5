//! Checks on the values of a configuration that the operating system gives
//! a meaning to: file-mode masks and signal names.

use crate::signal::{
    full_signal_name, name_of_signal, nix_signal, nix_signal_name, resolved_signal,
    stop_signal_from_name, StopSignal,
};
use crate::text::to_decimal;
use vstd::prelude::*;
use vstd::string::*;

verus! {

/// Why a configured value was turned down.
#[derive(Debug)]
pub enum NixError {
    /// The mask sets bits that are no permission bits.
    InvalidMode(u32),
    /// No signal has this name.
    InvalidSignal(String),
}

impl NixError {
    /// The error's message.
    pub open spec fn spec_message(&self) -> Seq<char> {
        match self {
            NixError::InvalidMode(mode) => "invalid mode "@ + crate::text::decimal(*mode as nat),
            NixError::InvalidSignal(name) => "invalid signal "@ + name@,
        }
    }

    pub fn to_string(&self) -> (r: String)
        ensures
            r@ == self.spec_message(),
    {
        match self {
            NixError::InvalidMode(mode) => {
                let digits = to_decimal(*mode as u64);
                String::from_str("invalid mode ").concat(digits.as_str())
            },
            NixError::InvalidSignal(name) => String::from_str("invalid signal ").concat(
                name.as_str(),
            ),
        }
    }
}

/// All the bits that a file-mode mask may set: the permissions of user,
/// group and others, set-user-id, set-group-id and the sticky bit.
pub const MODE_BITS: u32 = 0o7777;

/// Whether `raw` sets permission bits only.
pub open spec fn valid_mode(raw: u32) -> bool {
    raw & !MODE_BITS == 0
}

/// Calls nix's `Mode::from_bits` and hands back the bits of the mode it
/// made. As bitflags documents it, the call succeeds unless `raw` has a bit
/// outside the flags of `Mode`, which together are `MODE_BITS`, and the mode
/// keeps `raw` as its bits.
#[verifier::external_body]
fn mode_from_bits(raw: u32) -> (r: Option<u32>)
    ensures
        r == (if valid_mode(raw) {
            Some(raw)
        } else {
            None
        }),
{
    match nix::sys::stat::Mode::from_bits(raw) {
        Some(mode) => Some(mode.bits()),
        None => None,
    }
}

/// The reading and writing of a file-mode mask in a configuration.
pub struct SerdeMode;

impl SerdeMode {
    /// Checks a file-mode mask that a configuration gives as a number.
    pub fn deserialize(raw_mode: u32) -> (r: Result<u32, NixError>)
        ensures
            valid_mode(raw_mode) ==> r == Ok::<u32, NixError>(raw_mode),
            !valid_mode(raw_mode) ==> r == Err::<u32, NixError>(NixError::InvalidMode(raw_mode)),
    {
        match mode_from_bits(raw_mode) {
            Some(bits) => Ok(bits),
            None => Err(NixError::InvalidMode(raw_mode)),
        }
    }

    /// The number that a configuration gives for a mask.
    pub fn serialize(mode: &u32) -> (r: u32)
        ensures
            r == *mode,
    {
        *mode
    }
}

/// A mask is valid exactly when it is at most `MODE_BITS`.
pub proof fn lemma_valid_mode_range(raw: u32)
    ensures
        valid_mode(raw) <==> raw <= MODE_BITS,
{
    assert((raw & !0o7777u32 == 0) <==> raw <= 0o7777u32) by (bit_vector);
}

/// Whether `r` is what reading the signal name `raw` gives when the lookup
/// of its full name returned `found`: the signal found, or the error that
/// carries `raw`.
pub open spec fn signal_outcome(
    raw: Seq<char>,
    found: Option<StopSignal>,
    r: Result<StopSignal, NixError>,
) -> bool {
    match found {
        Some(signal) => r == Ok::<StopSignal, NixError>(signal),
        None => match r {
            Err(NixError::InvalidSignal(name)) => name@ == raw,
            _ => false,
        },
    }
}

/// The outcome of reading `raw` once its full name has been looked up.
pub fn signal_or_error(raw: &str, found: Option<StopSignal>) -> (r: Result<StopSignal, NixError>)
    ensures
        signal_outcome(raw@, found, r),
{
    match found {
        Some(signal) => Ok(signal),
        None => Err(NixError::InvalidSignal(String::from_str(raw))),
    }
}

/// What stands for a user or a group by its number.
pub trait UidGid: Sized {
    /// The number that the value stands for.
    spec fn spec_raw(&self) -> u32;

    fn from_raw(id: u32) -> (r: Self)
        ensures
            r.spec_raw() == id,
    ;

    fn to_raw(&self) -> (r: u32)
        ensures
            r == self.spec_raw(),
    ;
}

/// A user of the system.
#[derive(Clone, Copy, Debug, PartialEq, Eq, Structural)]
pub struct Uid {
    pub raw: u32,
}

/// A group of the system.
#[derive(Clone, Copy, Debug, PartialEq, Eq, Structural)]
pub struct Gid {
    pub raw: u32,
}

impl UidGid for Uid {
    open spec fn spec_raw(&self) -> u32 {
        self.raw
    }

    fn from_raw(id: u32) -> (r: Self) {
        Uid { raw: id }
    }

    fn to_raw(&self) -> (r: u32) {
        self.raw
    }
}

impl UidGid for Gid {
    open spec fn spec_raw(&self) -> u32 {
        self.raw
    }

    fn from_raw(id: u32) -> (r: Self) {
        Gid { raw: id }
    }

    fn to_raw(&self) -> (r: u32) {
        self.raw
    }
}

/// The reading and writing of an optional user or group in a
/// configuration.
pub struct SerdeOptionnalUidGid<T: UidGid>(pub Option<T>);

impl<T: UidGid> SerdeOptionnalUidGid<T> {
    /// The user or group that a configuration names by number, if it names
    /// one.
    pub fn deserialize(raw_id: Option<u32>) -> (r: Option<T>)
        ensures
            raw_id.is_some() == r.is_some(),
            raw_id.is_some() ==> r.unwrap().spec_raw() == raw_id.unwrap(),
    {
        match raw_id {
            Some(id) => Some(T::from_raw(id)),
            None => None,
        }
    }

    /// The number that a configuration gives for a user or group, if there
    /// is one.
    pub fn serialize(id: &Option<T>) -> (r: Option<u32>)
        ensures
            id.is_some() == r.is_some(),
            id.is_some() ==> r.unwrap() == id.unwrap().spec_raw(),
    {
        match id {
            Some(known) => Some(known.to_raw()),
            None => None,
        }
    }
}

/// The reading and writing of a stop signal in a configuration.
pub struct SerdeSignal;

impl SerdeSignal {
    /// Reads a configured signal name, with or without the `SIG` prefix. A
    /// name that the platform does not know is an error.
    pub fn deserialize(raw_signal: &str) -> (r: Result<StopSignal, NixError>)
        ensures
            signal_outcome(raw_signal@, resolved_signal(nix_signal(full_signal_name(raw_signal@))), r),
    {
        signal_or_error(raw_signal, stop_signal_from_name(raw_signal))
    }

    /// The full name of a signal, as a configuration writes it; nothing
    /// where the platform has no signal of that number.
    pub fn serialize(sig: &StopSignal) -> (r: Option<String>)
        ensures
            match r {
                Some(name) => nix_signal_name(sig.number) == Some(name@),
                None => nix_signal_name(sig.number).is_none(),
            },
    {
        name_of_signal(sig.number)
    }
}

} // verus!

//! Watching the configuration file: which parser reads it, and when a
//! change of the file asks for a reload.

use crate::error::Taskmaster;
use crate::text::same_text;
use vstd::prelude::*;
use vstd::string::*;

verus! {

/// The language a configuration file is written in.
#[derive(Clone, Copy, Debug, PartialEq, Eq, Structural)]
pub enum ConfigFormat {
    Yaml,
    Toml,
}

/// The format that the file extension `ext` stands for, if any.
pub open spec fn spec_config_format(ext: Option<Seq<char>>) -> Option<ConfigFormat> {
    match ext {
        Some(e) => if e == "yml"@ || e == "yaml"@ {
            Some(ConfigFormat::Yaml)
        } else if e == "toml"@ {
            Some(ConfigFormat::Toml)
        } else {
            None
        },
        None => None,
    }
}

/// The view of an optional text.
pub open spec fn ext_view(ext: Option<&str>) -> Option<Seq<char>> {
    match ext {
        Some(e) => Some(e@),
        None => None,
    }
}

/// Picks the parser by the extension of the configuration file: `yml` and
/// `yaml` are YAML, `toml` is TOML, and anything else is an error.
pub fn config_format(ext: Option<&str>) -> (r: Result<ConfigFormat, Taskmaster>)
    ensures
        match spec_config_format(ext_view(ext)) {
            Some(format) => r == Ok::<ConfigFormat, Taskmaster>(format),
            None => r == Err::<ConfigFormat, Taskmaster>(Taskmaster::Cli),
        },
{
    match ext {
        Some(e) => {
            if same_text(e, "yml") || same_text(e, "yaml") {
                Ok(ConfigFormat::Yaml)
            } else if same_text(e, "toml") {
                Ok(ConfigFormat::Toml)
            } else {
                Err(Taskmaster::Cli)
            }
        },
        None => Err(Taskmaster::Cli),
    }
}

/// A moment on the system clock: seconds since the epoch, and nanoseconds
/// within the second.
#[derive(Clone, Copy, Debug, PartialEq, Eq, Structural)]
pub struct Stamp {
    pub secs: u64,
    pub nanos: u32,
}

/// What a look at the configuration file found.
#[derive(Clone, Copy, Debug, PartialEq, Eq, Structural)]
pub enum Probe {
    /// There is no file at the path.
    Missing,
    /// The file is there and its metadata cannot be read.
    Unreadable,
    /// The file is there, last modified at the moment given.
    Modified(Stamp),
}

/// The watcher of one configuration file.
#[derive(Debug)]
pub struct Watcher {
    path: String,
    mtime: Stamp,
}

impl Watcher {
    /// The path of the file watched.
    pub closed spec fn spec_path(&self) -> Seq<char> {
        self.path@
    }

    pub fn path(&self) -> (r: &String)
        ensures
            r@ == self.spec_path(),
    {
        &self.path
    }

    /// The modification time that the watcher compares with.
    pub closed spec fn spec_mtime(&self) -> Stamp {
        self.mtime
    }

    #[verifier::when_used_as_spec(spec_mtime)]
    pub fn mtime(&self) -> (r: Stamp)
        ensures
            r == self.spec_mtime(),
    {
        self.mtime
    }

    /// The watcher of the file at `path`, made at `now`; an error where
    /// nothing is at that path.
    pub fn try_from(path: &str, exists: bool, now: Stamp) -> (r: Result<Watcher, Taskmaster>)
        ensures
            exists ==> r.is_ok() && r.unwrap().spec_path() == path@ && r.unwrap().spec_mtime() == now,
            !exists ==> r == Err::<Watcher, Taskmaster>(Taskmaster::InvalidConf),
    {
        if exists {
            Ok(Watcher { path: String::from_str(path), mtime: now })
        } else {
            Err(Taskmaster::InvalidConf)
        }
    }

    /// Whether a look that found `probe` asks for a reload: the file is
    /// there and was modified at another moment than the one remembered.
    pub open spec fn spec_changed(&self, probe: Probe) -> bool {
        match probe {
            Probe::Modified(at) => at != self.spec_mtime(),
            _ => false,
        }
    }

    /// Takes note of a look at the file. Returns whether to reload; where
    /// it does, the file's modification time is remembered.
    pub fn poll(&mut self, probe: Probe) -> (reload: bool)
        ensures
            reload == old(self).spec_changed(probe),
            final(self).spec_path() == old(self).spec_path(),
            final(self).spec_mtime() == (match probe {
                Probe::Modified(at) => at,
                _ => old(self).spec_mtime(),
            }),
    {
        match probe {
            Probe::Modified(at) => {
                if at == self.mtime {
                    false
                } else {
                    self.mtime = at;
                    true
                }
            },
            _ => false,
        }
    }
}

/// A look that finds the file as it was remembered asks for no reload, and
/// after a reload was asked for, the same look asks for none.
pub proof fn lemma_poll_settles(w: Watcher, after: Watcher, probe: Probe)
    requires
        after.spec_mtime() == (match probe {
            Probe::Modified(at) => at,
            _ => w.spec_mtime(),
        }),
    ensures
        !after.spec_changed(probe),
{
}

} // verus!

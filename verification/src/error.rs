//! The ways in which the supervisor and its client fail.

use vstd::prelude::*;
use vstd::string::*;

verus! {

/// A failure of the supervisor or its client. Where the failure came from
/// the system or a parser, the variant carries what that one said.
#[derive(Debug)]
pub enum Taskmaster {
    ReadFile(String),
    Io(String),
    ParseToml(String),
    ParseYaml(String),
    Signal,
    Cli,
    InvalidConf,
    InvalidCmd,
    ForkFailed,
}

impl Taskmaster {
    /// What the failure is, in words.
    pub open spec fn spec_description(&self) -> Seq<char> {
        match self {
            Taskmaster::ReadFile(_) => "Unable to read file"@,
            Taskmaster::Io(_) => "IO failure"@,
            Taskmaster::ParseToml(_) => "Unable to parse config file in TOML format"@,
            Taskmaster::ParseYaml(_) => "Unable to parse config file in YAML format"@,
            Taskmaster::Signal => "Signal not handled"@,
            Taskmaster::Cli => "Error in the cli"@,
            Taskmaster::InvalidConf => "Config file path is invald"@,
            Taskmaster::InvalidCmd => "Invalid Command"@,
            Taskmaster::ForkFailed => "Fork Failed"@,
        }
    }

    pub fn description(&self) -> (r: &'static str)
        ensures
            r@ == self.spec_description(),
    {
        match self {
            Taskmaster::ReadFile(_) => "Unable to read file",
            Taskmaster::Io(_) => "IO failure",
            Taskmaster::ParseToml(_) => "Unable to parse config file in TOML format",
            Taskmaster::ParseYaml(_) => "Unable to parse config file in YAML format",
            Taskmaster::Signal => "Signal not handled",
            Taskmaster::Cli => "Error in the cli",
            Taskmaster::InvalidConf => "Config file path is invald",
            Taskmaster::InvalidCmd => "Invalid Command",
            Taskmaster::ForkFailed => "Fork Failed",
        }
    }

    pub fn to_string(&self) -> (r: String)
        ensures
            r@ == self.spec_description(),
    {
        String::from_str(self.description())
    }

    /// What the system or the parser said of the failure, where it came
    /// from one.
    pub fn source(&self) -> (r: Option<&String>)
        ensures
            r == match self {
                Taskmaster::ReadFile(said) => Some(said),
                Taskmaster::Io(said) => Some(said),
                Taskmaster::ParseToml(said) => Some(said),
                Taskmaster::ParseYaml(said) => Some(said),
                _ => None,
            },
    {
        match self {
            Taskmaster::ReadFile(said) => Some(said),
            Taskmaster::Io(said) => Some(said),
            Taskmaster::ParseToml(said) => Some(said),
            Taskmaster::ParseYaml(said) => Some(said),
            _ => None,
        }
    }
}

} // verus!

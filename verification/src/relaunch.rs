//! The restart policy of a task.

use crate::text::same_text;
use vstd::prelude::*;
use vstd::string::*;

verus! {

/// When an exited child is replaced by a new one.
#[derive(Clone, Copy, Debug, PartialEq, Eq, Structural)]
pub enum Relaunch {
    /// Never.
    Never,
    /// After every exit that counts as a success.
    Always,
    /// After every exit that counts as a failure.
    OnError,
}

impl Relaunch {
    /// The policy's name as configuration files write it.
    pub open spec fn spec_name(self) -> Seq<char> {
        match self {
            Relaunch::Never => "never"@,
            Relaunch::Always => "always"@,
            Relaunch::OnError => "on-error"@,
        }
    }

    /// The policy that `name` stands for, if any.
    pub open spec fn spec_from_name(name: Seq<char>) -> Option<Relaunch> {
        if name == "never"@ {
            Some(Relaunch::Never)
        } else if name == "always"@ {
            Some(Relaunch::Always)
        } else if name == "on-error"@ {
            Some(Relaunch::OnError)
        } else {
            None
        }
    }

    pub fn name(&self) -> (r: &'static str)
        ensures
            r@ == self.spec_name(),
    {
        match self {
            Relaunch::Never => "never",
            Relaunch::Always => "always",
            Relaunch::OnError => "on-error",
        }
    }

    pub fn to_string(&self) -> (r: String)
        ensures
            r@ == self.spec_name(),
    {
        String::from_str(self.name())
    }

    pub fn from_name(name: &str) -> (r: Option<Relaunch>)
        ensures
            r == Self::spec_from_name(name@),
    {
        if same_text(name, "never") {
            Some(Relaunch::Never)
        } else if same_text(name, "always") {
            Some(Relaunch::Always)
        } else if same_text(name, "on-error") {
            Some(Relaunch::OnError)
        } else {
            None
        }
    }
}

/// Reading a policy's own name gives the policy back.
pub proof fn lemma_relaunch_name_round_trip(mode: Relaunch)
    ensures
        Relaunch::spec_from_name(mode.spec_name()) == Some(mode),
{
    reveal_strlit("never");
    reveal_strlit("always");
    reveal_strlit("on-error");
    assert("never"@.len() == 5);
    assert("always"@.len() == 6);
    assert("on-error"@.len() == 8);
}

} // verus!

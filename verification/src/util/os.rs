//! The operating systems the agent can run on, and what it reports about
//! its host.

use crate::util::text::str_eq;
use vstd::prelude::*;

verus! {

/// An operating system the agent supports.
#[derive(Clone, Copy, Debug, PartialEq, Eq, Structural)]
pub enum TargetOs {
    Windows,
    Linux,
    Macos,
}

impl TargetOs {
    /// The name under which the distribution platform knows this system.
    pub open spec fn name_spec(self) -> Seq<char> {
        match self {
            TargetOs::Windows => "windows"@,
            TargetOs::Linux => "linux"@,
            TargetOs::Macos => "macos"@,
        }
    }

    /// The system with the given name, if it is a supported one.
    pub open spec fn from_name_spec(name: Seq<char>) -> Option<TargetOs> {
        if name == "windows"@ {
            Some(TargetOs::Windows)
        } else if name == "linux"@ {
            Some(TargetOs::Linux)
        } else if name == "macos"@ {
            Some(TargetOs::Macos)
        } else {
            None
        }
    }

    /// The name of this system.
    pub fn name(self) -> (r: &'static str)
        ensures
            r@ == self.name_spec(),
    {
        match self {
            TargetOs::Windows => "windows",
            TargetOs::Linux => "linux",
            TargetOs::Macos => "macos",
        }
    }

    /// The supported system called `name`.
    pub fn from_name(name: &str) -> (r: Option<TargetOs>)
        ensures
            r == Self::from_name_spec(name@),
    {
        if str_eq(name, "windows") {
            Some(TargetOs::Windows)
        } else if str_eq(name, "linux") {
            Some(TargetOs::Linux)
        } else if str_eq(name, "macos") {
            Some(TargetOs::Macos)
        } else {
            None
        }
    }
}

/// Every supported system is found again under its own name.
pub proof fn lemma_name_round_trip(os: TargetOs)
    ensures
        TargetOs::from_name_spec(os.name_spec()) == Some(os),
{
    reveal_strlit("windows");
    reveal_strlit("linux");
    reveal_strlit("macos");
    assert("windows"@.len() == 7);
    assert("linux"@.len() == 5);
    assert("macos"@[0] == 'm');
    assert("linux"@[0] == 'l');
}

/// The supported system called `name`, by its canonical name; `None` for a
/// system the agent does not support.
pub fn get_target_os(name: &str) -> (r: Option<String>)
    ensures
        match TargetOs::from_name_spec(name@) {
            Some(os) => r matches Some(s) && s@ == os.name_spec(),
            None => r is None,
        },
{
    match TargetOs::from_name(name) {
        Some(os) => Some(os.name().to_owned()),
        None => None,
    }
}

/// What the agent reports about the host's operating system.
#[derive(Debug)]
pub struct OSInfo {
    pub os_type: String,
    pub version: String,
    pub edition: Option<String>,
    pub target_os: String,
    pub target_arch: String,
}

} // verus!

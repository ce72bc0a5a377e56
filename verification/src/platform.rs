//! The platform the launcher runs on, as a value: the choices that depend on it
//! take it as an argument.
use vstd::prelude::*;

verus! {

#[derive(Clone, Copy, Debug, PartialEq, Eq)]
pub enum TargetOs {
    Windows,
    Linux,
    Other,
}

#[derive(Clone, Copy, Debug, PartialEq, Eq)]
pub struct Platform {
    pub os: TargetOs,
    /// The CPU is 64-bit ARM.
    pub aarch64: bool,
}

impl Platform {
    pub open spec fn spec_is_windows(self) -> bool {
        self.os is Windows
    }

    pub open spec fn spec_is_linux(self) -> bool {
        self.os is Linux
    }

    #[verifier::when_used_as_spec(spec_is_windows)]
    pub fn is_windows(self) -> (res: bool)
        ensures
            res == self.spec_is_windows(),
    {
        match self.os {
            TargetOs::Windows => true,
            _ => false,
        }
    }

    #[verifier::when_used_as_spec(spec_is_linux)]
    pub fn is_linux(self) -> (res: bool)
        ensures
            res == self.spec_is_linux(),
    {
        match self.os {
            TargetOs::Linux => true,
            _ => false,
        }
    }
}

} // verus!

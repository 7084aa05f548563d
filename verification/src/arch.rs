//! The processor architecture that assets are matched against.

use vstd::prelude::*;

use crate::text::same;

verus! {

/// The architectures that plugins are published for.
#[derive(Clone, Copy, Debug, PartialEq, Eq, Structural)]
pub enum Arch {
    X64,
    ARM64,
}

/// The lower-case token of an architecture in asset names.
pub open spec fn token_of(arch: Arch) -> Seq<char> {
    match arch {
        Arch::X64 => "x64"@,
        Arch::ARM64 => "arm64"@,
    }
}

/// The upper-case token of an architecture in asset names.
pub open spec fn upper_token_of(arch: Arch) -> Seq<char> {
    match arch {
        Arch::X64 => "X64"@,
        Arch::ARM64 => "ARM64"@,
    }
}

/// The architecture that a machine name stands for.
pub open spec fn arch_of_machine(machine: Seq<char>) -> Option<Arch> {
    if machine == "x86_64"@ {
        Some(Arch::X64)
    } else if machine == "aarch64"@ {
        Some(Arch::ARM64)
    } else {
        None
    }
}

impl Arch {
    /// The lower-case token, as the manifest and asset names spell it.
    pub fn token(&self) -> (r: &'static str)
        ensures
            r@ == token_of(*self),
    {
        match self {
            Arch::X64 => "x64",
            Arch::ARM64 => "arm64",
        }
    }

    /// The upper-case token.
    pub fn upper_token(&self) -> (r: &'static str)
        ensures
            r@ == upper_token_of(*self),
    {
        match self {
            Arch::X64 => "X64",
            Arch::ARM64 => "ARM64",
        }
    }

    /// The architecture of a machine, from the name the compiler gives it
    /// (`x86_64`, `aarch64`); `None` for any other machine.
    pub fn from_machine(machine: &str) -> (r: Option<Arch>)
        ensures
            r == arch_of_machine(machine@),
    {
        if same(machine, "x86_64") {
            Some(Arch::X64)
        } else if same(machine, "aarch64") {
            Some(Arch::ARM64)
        } else {
            None
        }
    }
}

} // verus!

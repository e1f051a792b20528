//! The command line, as plain values.
use vstd::prelude::*;

verus! {

/// The parsed command line.
pub struct Cli {
    pub subcommand: Commands,
}

pub enum Commands {
    /// Run the pipeline described by `config` (default `cbt.toml`).
    Build { config: Option<String> },
    /// Clean the build directory.
    Clean,
    /// Write the default configuration to `path` (default `cbt.toml`).
    GenConfig { path: Option<String> },
    /// Write a completion script for `shell`.
    GenCompletions { shell: Shell },
}

#[derive(Debug, Clone, Copy, PartialEq, Eq, Structural)]
pub enum Shell {
    Bash,
    Fish,
    Zsh,
    PowerShell,
    Elvish,
}

impl Shell {
    /// The file extension of the shell's completion scripts.
    pub open spec fn extension_of(self) -> Seq<char> {
        match self {
            Shell::Bash => "bash"@,
            Shell::Fish => "fish"@,
            Shell::Zsh => "zsh"@,
            Shell::PowerShell => "ps1"@,
            Shell::Elvish => "elv"@,
        }
    }

    pub fn extension(&self) -> (r: &'static str)
        ensures
            r@ == self.extension_of(),
    {
        match self {
            Shell::Bash => "bash",
            Shell::Fish => "fish",
            Shell::Zsh => "zsh",
            Shell::PowerShell => "ps1",
            Shell::Elvish => "elv",
        }
    }
}

} // verus!

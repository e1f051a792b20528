//! What each command line asks for, before any file is touched.
use vstd::prelude::*;
use crate::cli::{Cli, Commands, Shell};
use crate::error::BuildError;

verus! {

/// The configuration file used when none is named.
pub open spec fn default_config_path() -> Seq<char> {
    "cbt.toml"@
}

/// A command, with its defaults filled in.
pub enum Task {
    /// Run every stage of the configuration at `config`, in order.
    Build { config: String },
    /// Write the default configuration to `path`.
    GenConfig { path: String },
    /// Write the completion script for `shell`.
    GenCompletions { shell: Shell },
}

fn or_default_config(p: &Option<String>) -> (r: String)
    ensures
        r@ == match p {
            Some(s) => s@,
            None => default_config_path(),
        },
{
    match p {
        Some(s) => s.clone(),
        None => String::from_str("cbt.toml"),
    }
}

/// The task a command line asks for; `clean` is not implemented.
pub fn run(cli: &Cli) -> (r: Result<Task, BuildError>)
    ensures
        match cli.subcommand {
            Commands::Build { config } => r matches Ok(Task::Build { config: c }) && c@ == (
            match config {
                Some(s) => s@,
                None => default_config_path(),
            }),
            Commands::GenConfig { path } => r matches Ok(Task::GenConfig { path: q }) && q@ == (
            match path {
                Some(s) => s@,
                None => default_config_path(),
            }),
            Commands::GenCompletions { shell } => r == Ok::<Task, BuildError>(
                Task::GenCompletions { shell },
            ),
            Commands::Clean => r matches Err(BuildError::NotImplemented { command }) && command@
                == "clean"@,
        },
{
    match &cli.subcommand {
        Commands::Build { config } => Ok(Task::Build { config: or_default_config(config) }),
        Commands::GenConfig { path } => Ok(Task::GenConfig { path: or_default_config(path) }),
        Commands::GenCompletions { shell } => Ok(Task::GenCompletions { shell: *shell }),
        Commands::Clean => Err(BuildError::NotImplemented { command: String::from_str("clean") }),
    }
}

/// The file a completion script for `shell` is written to: the program's
/// name with the shell's extension.
pub fn completions_file(app_name: &str, shell: Shell) -> (r: String)
    ensures
        r@ == app_name@ + seq!['.'] + shell.extension_of(),
{
    let mut r = app_name.to_owned();
    proof {
        reveal_strlit(".");
    }
    r.append(".");
    r.append(shell.extension());
    r
}

} // verus!

use cbt::cli::{Cli, Commands, Shell};
use cbt::commands::{completions_file, run, Task};
use cbt::error::BuildError;

#[test]
fn shell_extensions() {
    assert_eq!(Shell::Bash.extension(), "bash");
    assert_eq!(Shell::Fish.extension(), "fish");
    assert_eq!(Shell::Zsh.extension(), "zsh");
    assert_eq!(Shell::PowerShell.extension(), "ps1");
    assert_eq!(Shell::Elvish.extension(), "elv");
}

#[test]
fn build_defaults_to_cbt_toml() {
    let cli = Cli { subcommand: Commands::Build { config: None } };
    assert!(matches!(run(&cli), Ok(Task::Build { config }) if config == "cbt.toml"));
    let cli = Cli { subcommand: Commands::Build { config: Some("x/p.toml".to_string()) } };
    assert!(matches!(run(&cli), Ok(Task::Build { config }) if config == "x/p.toml"));
}

#[test]
fn gen_config_path() {
    let cli = Cli { subcommand: Commands::GenConfig { path: None } };
    assert!(matches!(run(&cli), Ok(Task::GenConfig { path }) if path == "cbt.toml"));
    let cli = Cli { subcommand: Commands::GenConfig { path: Some("o.toml".to_string()) } };
    assert!(matches!(run(&cli), Ok(Task::GenConfig { path }) if path == "o.toml"));
}

#[test]
fn gen_completions_task() {
    let cli = Cli { subcommand: Commands::GenCompletions { shell: Shell::Zsh } };
    assert!(matches!(run(&cli), Ok(Task::GenCompletions { shell: Shell::Zsh })));
    assert_eq!(completions_file("cbt", Shell::PowerShell), "cbt.ps1");
    assert_eq!(completions_file("cbt", Shell::Bash), "cbt.bash");
}

#[test]
fn clean_is_not_implemented() {
    let cli = Cli { subcommand: Commands::Clean };
    assert!(matches!(run(&cli), Err(BuildError::NotImplemented { command }) if command == "clean"));
}

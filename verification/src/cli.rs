//! The command line of `agentctl`: its commands and global flags, as parsed.

use vstd::prelude::*;

verus! {

/// Hub validation, index generation and skill management for agent hubs.
#[derive(Debug)]
pub struct Cli {
    /// Path to the config file (default: `~/.agentctl/config.json`).
    pub config: Option<String>,
    /// Path to the skills lock file (default: `~/.agentctl/skills.lock.json`).
    pub lock: Option<String>,
    /// Suppress all output; implies `yes`.
    pub quiet: bool,
    /// Approve every lifecycle step without prompting.
    pub yes: bool,
    pub command: Command,
}

/// The top-level commands.
#[derive(Debug)]
pub enum Command {
    /// Manage the local config file.
    Config { action: ConfigAction },
    /// Manage agent hubs (validate, generate index, registry).
    Hub { action: HubAction },
    /// Manage installed skills.
    Skill { action: SkillAction },
}

/// `config` subcommands.
#[derive(Debug)]
pub enum ConfigAction {
    /// Create a default config file if there is none (or always, with `force`).
    Init { force: bool },
    /// Print the whole config as pretty JSON.
    Show,
    /// Print the path of the config file.
    Path,
    /// Print one config value.
    Get { key: String },
    /// Set one config value (`config set`).
    SetValue { key: String, value: String },
}

/// `hub` subcommands.
#[derive(Debug)]
pub enum HubAction {
    /// Check every file of a hub directory.
    Validate { hub_type: HubType, path: String },
    /// Write the index of a hub directory to `output`.
    Generate { hub_type: HubType, path: String, output: String, hub_id: String },
    /// Register a hub.
    Add { hub_type: HubType, id: String, index_url: String, git_url: Option<String> },
    /// List the registered hubs.
    List,
    /// Unregister a hub.
    Remove { id: String },
    /// Enable a registered hub.
    Enable { id: String },
    /// Disable a registered hub.
    Disable { id: String },
    /// Refresh the cached index of one hub, or of every enabled hub; `force`
    /// deletes the cache first.
    Refresh { id: Option<String>, force: bool },
}

/// Hub content type.
#[derive(Debug, Clone, Copy)]
pub enum HubType {
    /// A hub of `SKILL.md` skills.
    Skills,
    /// A hub of Markdown documents.
    Docs,
}

/// `skill` subcommands.
#[derive(Debug)]
pub enum SkillAction {
    /// Install a skill from a registered hub; `mode` installs under `skills-{mode}`.
    Install { name: String, hub: Option<String>, mode: Option<String> },
    /// List the installed skills.
    List,
    /// Remove an installed skill.
    Remove { name: String, hub: String },
    /// Update one installed skill, or all of them when no name is given.
    Update { name: Option<String>, hub: Option<String>, force: bool },
    /// Print the lock file.
    Export,
}

impl Cli {
    /// Lifecycle steps run without prompting when `--yes` is given, and when
    /// `--quiet` is, which implies it.
    pub fn approves_all(&self) -> (r: bool)
        ensures
            r == (self.quiet || self.yes),
    {
        self.quiet || self.yes
    }
}

} // verus!

//! The user's `config.json`: registered hubs and scalar settings.

use vstd::prelude::*;

use crate::text::str_eq;

verus! {

/// A registered hub.
#[derive(Debug, Clone)]
pub struct HubEntry {
    pub id: String,
    pub index_url: String,
    pub git_url: Option<String>,
    pub enabled: bool,
    pub ttl_hours: u64,
}

/// The user configuration.
#[derive(Debug)]
pub struct Config {
    /// Where skills are installed; `~` stands for the home directory.
    pub skills_root: Option<String>,
    pub skill_hubs: Vec<HubEntry>,
    pub doc_hubs: Vec<HubEntry>,
}

/// A hub read without `enabled` is enabled.
pub fn default_true() -> (r: bool)
    ensures
        r,
{
    true
}

/// A hub read without `ttl_hours` keeps its cached index for six hours.
pub fn default_ttl() -> (r: u64)
    ensures
        r == 6,
{
    6
}

/// Why a setting could not be read or written.
#[derive(Debug)]
pub enum ConfigError {
    /// The key names no scalar setting.
    UnknownKey(String),
}

/// The text under which `config get` shows an optional setting.
pub open spec fn shown(v: Option<String>) -> Seq<char> {
    match v {
        Some(s) => s@,
        None => Seq::empty(),
    }
}

impl Config {
    /// The configuration used when no file exists: no hubs, no settings.
    pub fn empty() -> (r: Config)
        ensures
            r.skills_root is None,
            r.skill_hubs@.len() == 0,
            r.doc_hubs@.len() == 0,
    {
        Config { skills_root: None, skill_hubs: Vec::new(), doc_hubs: Vec::new() }
    }

    /// The value of a scalar setting as `config get` prints it: `skills_root`
    /// is the only one, and prints empty when unset.
    pub fn get_value(&self, key: &str) -> (r: Result<String, ConfigError>)
        ensures
            match r {
                Ok(v) => key@ == "skills_root"@ && v@ == shown(self.skills_root),
                Err(ConfigError::UnknownKey(k)) => key@ != "skills_root"@ && k@ == key@,
            },
    {
        if str_eq(key, "skills_root") {
            match &self.skills_root {
                Some(s) => Ok(s.clone()),
                None => Ok(String::new()),
            }
        } else {
            Err(ConfigError::UnknownKey(String::from_str(key)))
        }
    }

    /// Sets a scalar setting as `config set` does: `skills_root` is the only
    /// one; any other key is refused and nothing changes.
    pub fn set_value(&mut self, key: &str, value: &str) -> (r: Result<(), ConfigError>)
        ensures
            match r {
                Ok(()) => key@ == "skills_root"@ && final(self).skills_root is Some
                    && final(self).skills_root.unwrap()@ == value@ && final(self).skill_hubs
                    == old(self).skill_hubs && final(self).doc_hubs == old(self).doc_hubs,
                Err(ConfigError::UnknownKey(k)) => key@ != "skills_root"@ && k@ == key@
                    && *final(self) == *old(self),
            },
    {
        if str_eq(key, "skills_root") {
            self.skills_root = Some(String::from_str(value));
            Ok(())
        } else {
            Err(ConfigError::UnknownKey(String::from_str(key)))
        }
    }
}

impl Default for Config {
    /// No hubs and no settings.
    fn default() -> (r: Config)
        ensures
            r.skills_root is None,
            r.skill_hubs@.len() == 0,
            r.doc_hubs@.len() == 0,
    {
        Config::empty()
    }
}

/// What `config set skills_root` stored is what `config get skills_root` prints.
pub proof fn set_then_get(cfg: Config, value: Seq<char>)
    requires
        cfg.skills_root is Some,
        cfg.skills_root.unwrap()@ == value,
    ensures
        shown(cfg.skills_root) == value,
{
}

} // verus!

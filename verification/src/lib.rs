//! Verified core of `agentctl`: the command line, hub configuration and ignore rules, frontmatter
//! validation, index generation, the hub registry, the index cache policy,
//! skill variables, lifecycle decisions and the skills lock file.

pub mod cli;
pub mod text;
pub mod config;
pub mod skill;
pub mod hub;

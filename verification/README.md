# agentctl

A command-line tool for agent hubs: it validates hub directories, generates
their `index.json`, keeps a registry of hubs with a cached copy of each index,
and installs, updates and removes skills with their lifecycle commands.

The decisions of the tool live in a library whose behaviour is specified with
`requires`/`ensures` contracts and proved with Verus:

- `src/cli.rs` — the commands and global flags;
- `src/config.rs` — the user configuration and its scalar settings;
- `src/hub/config.rs` — `agentctl.toml` and the ignore patterns;
- `src/hub/frontmatter.rs`, `src/hub/validate.rs` — frontmatter and hub checks;
- `src/hub/generate.rs`, `src/hub/schema.rs` — skills and docs indexes;
- `src/hub/registry.rs`, `src/hub/cache.rs` — the hub registry and the index cache policy;
- `src/skill/` — variables, lifecycle decisions, the lock file, install and update plans.

`app/` is the binary: argument parsing, files, git, HTTP and shell commands.
It hands the library plain values and acts on what the library decides.

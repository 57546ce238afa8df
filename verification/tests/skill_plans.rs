use std::path::{Path, PathBuf};
use agentctl::config::{Config, HubEntry};
use agentctl::skill::lifecycle::{
    default_approval, default_platform, next_action, update_plan, LifecycleFile, LifecycleStep,
    StepAction, UpdatePlan, UpdateRefusal,
};
use agentctl::skill::lock::{LockEntry, LockFile};
use agentctl::skill::vars::{VarError, VarMap};
use agentctl::skill::{
    expand_home, find_install_hub, skills_root_path, find_installed, list_lines, plan_install_from, plan_update_from,
    SkillError, UpdateDecision,
};

fn step(command: &str, platform: &str, requires_approval: bool) -> LifecycleStep {
    LifecycleStep {
        command: command.into(),
        description: format!("run {command}"),
        platform: platform.into(),
        requires_approval,
    }
}

fn base_vars() -> VarMap {
    let mut m = VarMap::new();
    m.insert("SKILL_NAME".into(), "my-skill".into());
    m.insert("SKILL_PATH".into(), "/skills/my-skill".into());
    m.insert("HOME".into(), "/home/user".into());
    m.insert("PLATFORM".into(), "linux".into());
    m
}

fn install_steps() -> Vec<LifecycleStep> {
    vec![
        step("echo install ${SKILL_NAME}", "all", false),
        step("echo macos-only", "macos", false),
        step("echo needs-approval", "all", true),
    ]
}

/// Runs the decisions of a lifecycle section to the end as the binary does:
/// an asked step runs only if `approver` approves it, and a refusal aborts.
/// Returns the commands in the order they ran and whether each was asked about.
fn run_all_with(
    steps: &Vec<LifecycleStep>,
    quiet: bool,
    platform: &str,
    approver: fn(&str) -> bool,
) -> Result<Vec<(String, bool)>, String> {
    let vars = base_vars();
    let mut out = Vec::new();
    let mut pos = 0;
    loop {
        match next_action(steps, &vars, quiet, platform, pos) {
            StepAction::Done => return Ok(out),
            StepAction::Failed { error: VarError::Undefined(n), .. } => return Err(n),
            StepAction::Run { index, command, ask, .. } => {
                if ask && !approver(&command) {
                    return Err("aborted by user".to_string());
                }
                out.push((command, ask));
                pos = index + 1;
            }
        }
    }
}

fn run_all(steps: &Vec<LifecycleStep>, quiet: bool, platform: &str) -> Result<Vec<(String, bool)>, String> {
    run_all_with(steps, quiet, platform, |_| true)
}

#[test]
fn execute_skips_wrong_platform() {
    let ran = run_all(&install_steps(), true, "linux").unwrap();
    assert_eq!(
        ran,
        vec![("echo install my-skill".to_string(), false), ("echo needs-approval".to_string(), false)]
    );
    let ran = run_all(&install_steps(), true, "macos").unwrap();
    assert_eq!(ran.len(), 3);
    assert_eq!(ran[1].0, "echo macos-only");
}

#[test]
fn execute_approver_abort() {
    // always_no approver — aborts on the requires_approval step
    let result = run_all_with(&install_steps(), false, "linux", |_| false);
    assert!(result.is_err());
}

#[test]
fn execute_quiet_skips_approval() {
    // quiet=true, the approver is never asked — succeeds
    let result = run_all_with(&install_steps(), true, "linux", |_| false);
    assert!(result.is_ok());
}

#[test]
fn next_action_asks_only_when_not_quiet() {
    let ran = run_all(&install_steps(), false, "linux").unwrap();
    assert_eq!(ran[0].1, false);
    assert_eq!(ran[1].1, true);
}

#[test]
fn next_action_shows_description_unless_quiet() {
    let steps = install_steps();
    match next_action(&steps, &base_vars(), false, "linux", 0) {
        StepAction::Run { index, description, show, .. } => {
            assert_eq!(index, 0);
            assert_eq!(description, "run echo install ${SKILL_NAME}");
            assert!(show);
        }
        _ => panic!("expected a step to run"),
    }
    assert!(matches!(next_action(&steps, &base_vars(), true, "linux", 3), StepAction::Done));
    assert!(matches!(next_action(&steps, &base_vars(), true, "linux", 99), StepAction::Done));
}

#[test]
fn next_action_undefined_variable_fails_at_that_step() {
    let steps = vec![step("echo ok", "all", false), step("echo ${MISSING}", "all", false)];
    match next_action(&steps, &base_vars(), true, "linux", 1) {
        StepAction::Failed { index, error: VarError::Undefined(n) } => {
            assert_eq!(index, 1);
            assert_eq!(n, "MISSING");
        }
        _ => panic!("expected a failure"),
    }
    assert_eq!(run_all(&steps, true, "linux").unwrap_err(), "MISSING");
}

#[test]
fn step_defaults() {
    assert_eq!(default_platform(), "all");
    assert!(default_approval());
}

fn lifecycle(update: Vec<LifecycleStep>) -> LifecycleFile {
    LifecycleFile { variables: vec![], install: install_steps(), update, uninstall: vec![] }
}

#[test]
fn lifecycle_no_update_section_errors() {
    assert!(matches!(update_plan(&lifecycle(vec![]), false), Err(UpdateRefusal::NoUpdateSection)));
}

#[test]
fn update_plan_choices() {
    assert!(matches!(update_plan(&lifecycle(vec![]), true), Ok(UpdatePlan::Reinstall)));
    let with_update = lifecycle(vec![step("echo update", "all", false)]);
    assert!(matches!(update_plan(&with_update, false), Ok(UpdatePlan::RunUpdate)));
    assert!(matches!(update_plan(&with_update, true), Ok(UpdatePlan::RunUpdate)));
}

fn hub(id: &str, enabled: bool, git_url: Option<&str>) -> HubEntry {
    HubEntry {
        id: id.into(),
        index_url: format!("https://example.com/{id}/index.json"),
        git_url: git_url.map(String::from),
        enabled,
        ttl_hours: 6,
    }
}

fn config(hubs: Vec<HubEntry>) -> Config {
    Config { skills_root: None, skill_hubs: hubs, doc_hubs: vec![] }
}

#[test]
fn skill_install_no_hub_configured_fails() {
    let cfg = config(vec![]);
    let err = find_install_hub(&cfg, None).unwrap_err();
    assert!(matches!(err, SkillError::NoEnabledHub));
    assert_eq!(err.to_string(), "no enabled skill hub found");
}

#[test]
fn skill_install_unknown_hub_fails() {
    let cfg = config(vec![]);
    let err = find_install_hub(&cfg, Some("nonexistent")).unwrap_err();
    assert_eq!(err.to_string(), "hub 'nonexistent' not found");
}

#[test]
fn install_hub_is_first_enabled_or_named() {
    let cfg = config(vec![hub("off", false, None), hub("on", true, None), hub("on2", true, None)]);
    assert_eq!(find_install_hub(&cfg, None).unwrap().id, "on");
    assert_eq!(find_install_hub(&cfg, Some("off")).unwrap().id, "off");
}

const INDEX: &str = r#"{
  "hub_id": "test-hub",
  "skills": [
    {"slug": "alpha", "name": "Alpha", "version": "1.2.0", "commit": "c1", "path": "skills/alpha"},
    {"slug": "beta", "name": "Beta", "commit_hash": "h2", "commit": "c2", "path": "beta"},
    {"slug": "nopath", "name": "No Path", "version": "1.0.0"},
    {"slug": 7, "name": "gamma"}
  ]
}"#;

#[test]
fn skill_install_skill_not_in_index_fails() {
    let h = hub("test-hub", true, Some("https://g.git"));
    let err = plan_install_from(&h, INDEX, "unknown-skill").unwrap_err();
    assert_eq!(err.to_string(), "skill 'unknown-skill' not found in hub 'test-hub'");
}

#[test]
fn install_plan_from_index() {
    let h = hub("test-hub", true, Some("https://g.git"));
    let p = plan_install_from(&h, INDEX, "alpha").unwrap();
    assert_eq!((p.version.as_str(), p.commit.as_str(), p.path.as_str(), p.git_url.as_str()), ("1.2.0", "c1", "skills/alpha", "https://g.git"));
    // matched by name; commit_hash wins over commit; version defaults
    let p = plan_install_from(&h, INDEX, "Beta").unwrap();
    assert_eq!((p.version.as_str(), p.commit.as_str(), p.path.as_str()), ("0.1.0", "h2", "beta"));
    // a non-string slug never matches, the name still does
    assert!(plan_install_from(&h, INDEX, "7").is_err());
    assert!(matches!(plan_install_from(&h, INDEX, "gamma"), Err(SkillError::MissingPath)));
}

#[test]
fn install_plan_refusals() {
    let h = hub("test-hub", true, Some("https://g.git"));
    assert!(matches!(plan_install_from(&h, "not json", "alpha"), Err(SkillError::InvalidIndex(_))));
    let err = plan_install_from(&h, "{}", "alpha").unwrap_err();
    assert_eq!(err.to_string(), "invalid index: missing skills array");
    assert_eq!(plan_install_from(&h, INDEX, "nopath").unwrap_err().to_string(), "missing path in skill entry");
    let no_git = hub("test-hub", true, None);
    assert_eq!(
        plan_install_from(&no_git, INDEX, "alpha").unwrap_err().to_string(),
        "hub 'test-hub' has no git_url \u{2014} cannot install"
    );
}

fn installed(hub_id: &str, slug: &str, version: &str, commit: &str) -> LockEntry {
    LockEntry {
        hub_id: hub_id.into(),
        slug: slug.into(),
        version: version.into(),
        commit: commit.into(),
        installed_path: format!("/skills/{slug}"),
        installed_at: "2026-07-15T00:00:00Z".into(),
    }
}

#[test]
fn update_finds_installed_skill() {
    let mut lock = LockFile::new();
    lock.insert(installed("h1", "alpha", "1.0.0", "c0"));
    lock.insert(installed("h2", "beta", "1.0.0", "c0"));
    assert_eq!(find_installed(&lock, "beta", None).unwrap().hub_id, "h2");
    assert_eq!(find_installed(&lock, "alpha", Some("h1")).unwrap().slug, "alpha");
    assert_eq!(
        find_installed(&lock, "alpha", Some("h2")).unwrap_err().to_string(),
        "skill 'alpha' not installed from hub 'h2'"
    );
    assert_eq!(find_installed(&lock, "ghost-skill", None).unwrap_err().to_string(), "skill 'ghost-skill' not installed");
}

#[test]
fn update_decisions() {
    let h = hub("test-hub", true, Some("https://g.git"));
    let current = installed("test-hub", "alpha", "1.2.0", "c1");
    match plan_update_from(&h, &current, INDEX, "alpha").unwrap() {
        UpdateDecision::UpToDate(v) => assert_eq!(v, "1.2.0"),
        UpdateDecision::Update(_) => panic!("already current"),
    }
    let older = installed("test-hub", "alpha", "1.1.0", "c0");
    match plan_update_from(&h, &older, INDEX, "alpha").unwrap() {
        UpdateDecision::Update(p) => {
            assert_eq!(p.version, "1.2.0");
            assert_eq!(p.commit, "c1");
            assert_eq!(p.path, "skills/alpha");
        }
        UpdateDecision::UpToDate(_) => panic!("should update"),
    }
    // an entry without path is fetched from the skill's name
    let np = installed("test-hub", "nopath", "0.9.0", "");
    match plan_update_from(&h, &np, INDEX, "nopath").unwrap() {
        UpdateDecision::Update(p) => assert_eq!(p.path, "nopath"),
        UpdateDecision::UpToDate(_) => panic!("should update"),
    }
    assert!(matches!(plan_update_from(&h, &older, "{}", "alpha"), Err(SkillError::MissingSkillsArray)));
    assert_eq!(
        plan_update_from(&h, &older, INDEX, "zeta").unwrap_err().to_string(),
        "skill 'zeta' not found in hub"
    );
    let no_git = hub("test-hub", true, None);
    assert_eq!(
        plan_update_from(&no_git, &older, INDEX, "alpha").unwrap_err().to_string(),
        "hub 'test-hub' has no git_url"
    );
    // a changed version alone is an update, even with the same commit
    let same_commit = installed("test-hub", "alpha", "1.0.0", "c1");
    assert!(matches!(plan_update_from(&no_git, &same_commit, INDEX, "alpha"), Err(SkillError::UpdateNoGitUrl(_))));
}

#[test]
fn skill_list_lines() {
    let mut lock = LockFile::new();
    assert!(list_lines(&lock).is_empty());
    lock.insert(installed("my-hub", "my-skill", "1.0.0", "abc"));
    assert_eq!(list_lines(&lock), vec!["  my-hub:my-skill 1.0.0 (/skills/my-skill)"]);
}

#[test]
fn skills_root_home_expansion() {
    assert_eq!(expand_home("~/skills", "/home/u"), "/home/u/skills");
    assert_eq!(expand_home("/opt/~x/~y", "/h"), "/opt//hx/~y");
    assert_eq!(expand_home("/opt/skills", "/h"), "/opt/skills");
}

#[test]
fn skills_root_locations() {
    // default root under the home directory, or under `.` when it is unknown
    assert_eq!(skills_root_path(None, None, Some("/home/u")), "/home/u/.agent/skills");
    assert_eq!(skills_root_path(None, None, None), "./.agent/skills");
    assert_eq!(skills_root_path(None, Some("dev"), Some("/home/u/")), "/home/u/.agent/skills-dev");
    // configured root, `~` expanded (to nothing when the home is unknown)
    assert_eq!(skills_root_path(Some("~/s"), None, Some("/h")), "/h/s");
    assert_eq!(skills_root_path(Some("~/s"), None, None), "/s");
    // a mode names a sibling of the root's last component
    assert_eq!(skills_root_path(Some("/opt/skills/"), Some("x"), None), "/opt/skills-x");
    assert_eq!(skills_root_path(Some("/opt/skills/."), Some("x"), None), "/opt/skills-x");
    assert_eq!(skills_root_path(Some("skills"), Some("x"), None), "skills-x");
    assert_eq!(skills_root_path(Some("/"), Some("x"), None), "/-x");
    assert_eq!(skills_root_path(Some("/a//b"), Some("x"), None), "/a/b-x");
    assert_eq!(skills_root_path(Some("a/.."), Some("x"), None), "a/-x");
    assert_eq!(skills_root_path(Some(""), Some("x"), None), "-x");
}

#[test]
fn skills_root_matches_std_path_on_common_inputs() {
    let by_path = |base: &str, m: &str| -> String {
        let base = PathBuf::from(base);
        let name = format!("{}-{m}", base.file_name().unwrap_or_default().to_string_lossy());
        base.parent().unwrap_or(&base).join(name).to_string_lossy().into_owned()
    };
    for base in ["/opt/skills", "/opt/skills/", "skills", "/", "a/b/c", "./a", "/a/./b", "a/..", "", "."] {
        let ours = skills_root_path(Some(base), Some("m"), None);
        assert_eq!(Path::new(&ours), Path::new(&by_path(base, "m")), "base {base:?}");
    }
}

use agentctl::cli::HubType;
use agentctl::config::{Config, HubEntry};
use agentctl::hub::registry::{
    add, hub_kind, hub_line, kind_of, refresh_all, refresh_all_with, refresh_one, refresh_one_with, remove,
    set_enabled, HubKind, RefreshError, RegistryError,
};

/// The configuration that the registry scenarios start from: one skill hub
/// and one disabled docs hub.
fn valid_config() -> Config {
    Config {
        skills_root: None,
        skill_hubs: vec![HubEntry {
            id: "agent-foundation".into(),
            index_url: "https://example.com/agent-foundation/index.json".into(),
            git_url: Some("https://example.com/agent-foundation.git".into()),
            enabled: true,
            ttl_hours: 12,
        }],
        doc_hubs: vec![HubEntry {
            id: "docs".into(),
            index_url: "https://example.com/docs/index.json".into(),
            git_url: None,
            enabled: false,
            ttl_hours: 6,
        }],
    }
}

fn hub_entry(id: &str, enabled: bool) -> HubEntry {
    HubEntry {
        id: id.to_string(),
        index_url: "https://unused.example.com/index.json".to_string(),
        git_url: None,
        enabled,
        ttl_hours: 6,
    }
}

fn ok_fetcher(_url: &str) -> Result<String, String> {
    Ok("{\"skills\": []}".to_string())
}

fn err_fetcher(_url: &str) -> Result<String, String> {
    Err("mock fetch error".to_string())
}

#[test]
fn add_new_hub() {
    let mut cfg = valid_config();
    assert!(add(&mut cfg, HubKind::Skill, "new-hub", "https://example.com/index.json", None).is_ok());
    assert_eq!(cfg.skill_hubs.len(), 2);
    assert_eq!(cfg.skill_hubs[1].id, "new-hub");
}

#[test]
fn add_duplicate_errors() {
    let mut cfg = valid_config();
    let err = add(&mut cfg, HubKind::Skill, "agent-foundation", "https://x.com", None).unwrap_err();
    assert!(err.to_string().contains("already exists"));
}

#[test]
fn remove_existing_hub() {
    let mut cfg = valid_config();
    remove(&mut cfg, HubKind::Skill, "agent-foundation").unwrap();
    assert!(cfg.skill_hubs.is_empty());
}

#[test]
fn remove_missing_errors() {
    let mut cfg = valid_config();
    let err = remove(&mut cfg, HubKind::Skill, "no-such-hub").unwrap_err();
    assert!(err.to_string().contains("not found"));
}

#[test]
fn disable_and_enable_hub() {
    let mut cfg = valid_config();
    set_enabled(&mut cfg, HubKind::Skill, "agent-foundation", false).unwrap();
    assert!(!cfg.skill_hubs[0].enabled);
    set_enabled(&mut cfg, HubKind::Skill, "agent-foundation", true).unwrap();
    assert!(cfg.skill_hubs[0].enabled);
}

#[test]
fn refresh_one_missing_hub_errors() {
    let cfg = valid_config();
    let err = refresh_one_with(&cfg, "no-such-hub", ok_fetcher).unwrap_err();
    assert!(err.to_string().contains("not found"));
}

#[test]
fn refresh_one_fetch_error_propagates() {
    let cfg = Config { skills_root: None, skill_hubs: vec![hub_entry("test-hub", true)], doc_hubs: vec![] };
    let err = refresh_one_with(&cfg, "test-hub", err_fetcher).unwrap_err();
    assert!(err.to_string().contains("mock fetch error"));
}

#[test]
fn refresh_one_writes_cache_on_success() {
    // the library hands back the hub and the body that the binary stores
    let cfg = Config { skills_root: None, skill_hubs: vec![hub_entry("test-hub", true)], doc_hubs: vec![] };
    let (hub, body) = refresh_one_with(&cfg, "test-hub", ok_fetcher).unwrap();
    assert_eq!(hub.id, "test-hub");
    assert_eq!(body, "{\"skills\": []}");
}

#[test]
fn refresh_all_skips_disabled_hubs() {
    let cfg = Config {
        skills_root: None,
        skill_hubs: vec![hub_entry("enabled-hub", true), hub_entry("disabled-hub", false)],
        doc_hubs: vec![],
    };
    let results = refresh_all_with(&cfg, ok_fetcher);
    assert_eq!(results.len(), 1);
    assert_eq!(results[0].0.id, "enabled-hub");
    assert!(results[0].1.is_ok());
}

#[test]
fn refresh_all_reports_each_failure() {
    let cfg = Config {
        skills_root: None,
        skill_hubs: vec![hub_entry("a", true)],
        doc_hubs: vec![hub_entry("b", true)],
    };
    let results = refresh_all_with(&cfg, err_fetcher);
    assert_eq!(results.len(), 2);
    assert_eq!(results[0].0.id, "a");
    assert_eq!(results[1].0.id, "b");
    assert_eq!(results[1].1.clone().unwrap_err(), "mock fetch error");
}

#[test]
fn refresh_one_finds_doc_hubs_too() {
    let cfg = valid_config();
    assert_eq!(refresh_one(&cfg, "docs").ok().unwrap().id, "docs");
    match refresh_one(&cfg, "nope") {
        Err(RegistryError::NotFound(id)) => assert_eq!(id, "nope"),
        _ => panic!("expected not found"),
    }
}

#[test]
fn refresh_all_lists_enabled_skill_then_doc_hubs() {
    let cfg = Config {
        skills_root: None,
        skill_hubs: vec![hub_entry("s1", true), hub_entry("s2", false), hub_entry("s3", true)],
        doc_hubs: vec![hub_entry("d1", true)],
    };
    let ids: Vec<&str> = refresh_all(&cfg).iter().map(|h| h.id.as_str()).collect();
    assert_eq!(ids, vec!["s1", "s3", "d1"]);
}

#[test]
fn add_sets_defaults_and_git_url() {
    let mut cfg = valid_config();
    add(&mut cfg, HubKind::Doc, "more-docs", "https://d/index.json", Some("https://d.git")).unwrap();
    let h = &cfg.doc_hubs[1];
    assert!(h.enabled);
    assert_eq!(h.ttl_hours, 6);
    assert_eq!(h.git_url.as_deref(), Some("https://d.git"));
    assert_eq!(cfg.skill_hubs.len(), 1);
}

#[test]
fn add_then_remove_restores_the_list() {
    let mut cfg = valid_config();
    add(&mut cfg, HubKind::Skill, "tmp", "https://t/index.json", None).unwrap();
    remove(&mut cfg, HubKind::Skill, "tmp").unwrap();
    assert_eq!(cfg.skill_hubs.len(), 1);
    assert_eq!(cfg.skill_hubs[0].id, "agent-foundation");
    assert_eq!(cfg.doc_hubs.len(), 1);
}

#[test]
fn same_id_in_the_other_kind_is_allowed() {
    let mut cfg = valid_config();
    assert!(add(&mut cfg, HubKind::Doc, "agent-foundation", "https://x", None).is_ok());
    match add(&mut cfg, HubKind::Doc, "agent-foundation", "https://x", None) {
        Err(RegistryError::AlreadyExists(id)) => assert_eq!(id, "agent-foundation"),
        _ => panic!("expected a refusal"),
    }
}

#[test]
fn set_enabled_missing_hub_errors() {
    let mut cfg = valid_config();
    let err = set_enabled(&mut cfg, HubKind::Doc, "agent-foundation", true).unwrap_err();
    assert_eq!(err.to_string(), "hub 'agent-foundation' not found");
}

#[test]
fn hub_type_maps_to_kind() {
    assert!(matches!(hub_kind(HubType::Skills), HubKind::Skill));
    assert!(matches!(hub_kind(HubType::Docs), HubKind::Doc));
}

#[test]
fn hub_list_lines() {
    let cfg = valid_config();
    assert_eq!(
        hub_line(&cfg.skill_hubs[0]),
        "  agent-foundation [enabled] https://example.com/agent-foundation/index.json"
    );
    assert_eq!(hub_line(&cfg.doc_hubs[0]), "  docs [disabled] https://example.com/docs/index.json");
}

#[test]
fn refresh_error_messages() {
    assert_eq!(RefreshError::NotFound("x".into()).to_string(), "hub 'x' not found");
    assert_eq!(RefreshError::Fetch("boom".into()).to_string(), "boom");
}

#[test]
fn kind_of_prefers_skill_hubs() {
    let mut cfg = valid_config();
    assert!(matches!(kind_of(&cfg, "agent-foundation"), Some(HubKind::Skill)));
    assert!(matches!(kind_of(&cfg, "docs"), Some(HubKind::Doc)));
    assert!(kind_of(&cfg, "none").is_none());
    add(&mut cfg, HubKind::Skill, "docs", "https://x", None).unwrap();
    assert!(matches!(kind_of(&cfg, "docs"), Some(HubKind::Skill)));
}

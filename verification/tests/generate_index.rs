use agentctl::hub::config::{GenerateSection, HubConfig, HubSection};
use agentctl::hub::generate::{
    generate_docs_index, generate_skills_index, resolve_hub_id, DocSource, GenerateError, SkillDir,
};
use agentctl::hub::schema::DocStatus;
use agentctl::hub::validate::SkillMd;

fn dir(name: &str, md: SkillMd) -> SkillDir {
    SkillDir {
        name: name.into(),
        rel_path: name.into(),
        is_dir: true,
        skill_md: md,
        commit: format!("c-{name}"),
        has_lifecycle: false,
    }
}

fn cfg_with_id(id: Option<&str>) -> HubConfig {
    HubConfig { hub: HubSection { id: id.map(String::from) }, generate: GenerateSection { ignore: None } }
}

#[test]
fn hub_id_precedence() {
    assert_eq!(resolve_hub_id("cli-id", &cfg_with_id(Some("toml-id"))), "cli-id");
    assert_eq!(resolve_hub_id("default", &cfg_with_id(Some("toml-id"))), "toml-id");
    assert_eq!(resolve_hub_id("default", &cfg_with_id(None)), "default");
}

#[test]
fn skills_index_entries() {
    let md = "---\nname: Python Scaffold\ndescription: Scaffolds projects\nlicense: MIT\nmetadata:\n  version: \"2.1.0\"\n---\nbody";
    let mut with_lifecycle = dir("python-scaffold", SkillMd::Text(md.into()));
    with_lifecycle.has_lifecycle = true;
    let dirs = vec![
        with_lifecycle,
        dir(".git", SkillMd::Missing),
        dir("no-skill-md", SkillMd::Missing),
        dir("bare", SkillMd::Text("---\nother: 1\n---\n".into())),
    ];
    let ix = generate_skills_index("default", &cfg_with_id(Some("my-hub")), "https://g.git", "2026-01-01T00:00:00Z", &dirs).unwrap();
    assert_eq!(ix.hub_id, "my-hub");
    assert_eq!(ix.generated_at, "2026-01-01T00:00:00Z");
    assert_eq!(ix.skills.len(), 2);
    let s = &ix.skills[0];
    assert_eq!(s.slug, "python-scaffold");
    assert_eq!(s.name, "Python Scaffold");
    assert_eq!(s.description, "Scaffolds projects");
    assert_eq!(s.version, "2.1.0");
    assert_eq!(s.license.as_deref(), Some("MIT"));
    assert!(s.compatibility.is_none());
    assert_eq!(s.git_url, "https://g.git");
    assert_eq!(s.path, "python-scaffold");
    assert_eq!(s.commit, "c-python-scaffold");
    assert!(s.has_lifecycle);
    let b = &ix.skills[1];
    assert_eq!(b.slug, "bare");
    assert_eq!(b.name, "");
    assert_eq!(b.version, "0.1.0");
}

#[test]
fn skills_index_stops_on_bad_frontmatter() {
    let dirs = vec![dir("a", SkillMd::Text("no frontmatter".into()))];
    assert!(matches!(
        generate_skills_index("h", &HubConfig::default(), "", "", &dirs),
        Err(GenerateError::MissingFrontmatter)
    ));
    let dirs = vec![dir("a", SkillMd::Text("---\n: [\n---\n".into()))];
    assert!(matches!(
        generate_skills_index("h", &HubConfig::default(), "", "", &dirs),
        Err(GenerateError::InvalidYaml(_))
    ));
    let dirs = vec![dir("a", SkillMd::Unreadable("denied".into()))];
    match generate_skills_index("h", &HubConfig::default(), "", "", &dirs) {
        Err(GenerateError::Unreadable(m)) => assert_eq!(m, "denied"),
        _ => panic!("expected a read failure"),
    }
}

fn doc(rel: &str, content: &str) -> DocSource {
    DocSource { rel_path: rel.into(), content: Ok(content.into()), commit_hash: format!("h-{rel}") }
}

#[test]
fn docs_index_entries() {
    let full = "---\ntitle: Guide\nsummary: How to\nstatus: deprecated\nlast_updated: \"2026-02-01\"\nread_when:\n  - starting\n  - 3\n  - ending\n---\ntext";
    let files = vec![
        doc("README.md", full),
        doc("guide.md", full),
        doc("plain.md", "no frontmatter"),
        doc("broken.md", "---\n: [\n---\n"),
        doc("draft.md", "---\ntitle: D\nstatus: wip\n---\n"),
    ];
    let ix = generate_docs_index(&HubConfig::default(), "abc", "2026-03-01T00:00:00Z", &files).unwrap();
    assert_eq!(ix.kind, "docs");
    assert_eq!(ix.version, "1.0");
    assert_eq!(ix.metadata.total_entries, 2);
    assert_eq!(ix.metadata.commit_hash, "abc");
    assert_eq!(ix.metadata.generated_at, "2026-03-01T00:00:00Z");
    let g = &ix.entries[0];
    assert_eq!(g.title, "Guide");
    assert_eq!(g.summary, "How to");
    assert_eq!(g.path, "guide.md");
    assert_eq!(g.commit_hash, "h-guide.md");
    assert_eq!(g.last_updated, "2026-02-01");
    assert_eq!(g.status, DocStatus::Deprecated);
    assert_eq!(g.read_when, vec!["starting", "ending"]);
    let d = &ix.entries[1];
    assert_eq!(d.path, "draft.md");
    assert_eq!(d.status, DocStatus::Draft);
    assert!(d.read_when.is_empty());
}

#[test]
fn docs_index_read_failure_is_an_error() {
    let files = vec![DocSource { rel_path: "a.md".into(), content: Err("gone".into()), commit_hash: String::new() }];
    assert_eq!(generate_docs_index(&HubConfig::default(), "", "", &files).unwrap_err(), "gone");
}

#[test]
fn docs_index_active_status() {
    let files = vec![doc("a.md", "---\nstatus: active\n---\n")];
    let ix = generate_docs_index(&HubConfig::default(), "", "", &files).unwrap();
    assert_eq!(ix.entries[0].status, DocStatus::Active);
    assert_eq!(ix.entries[0].title, "");
}

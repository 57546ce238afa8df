use agentctl::hub::config::HubConfig;
use agentctl::hub::validate::{
    decimal_digits, parse_frontmatter, validate_doc_frontmatter, validate_docs_hub,
    validate_skill_frontmatter, validate_skills_hub, ChildEntry, DirListing, DocFile, HubError,
    SkillMd, ValidationError,
};

fn skill_dir(name: &str, skill_md: SkillMd, children: Vec<ChildEntry>) -> DirListing {
    DirListing {
        name: name.into(),
        path: format!("/hub/{name}"),
        is_dir: true,
        skill_md_path: format!("/hub/{name}/SKILL.md"),
        skill_md,
        children: Ok(children),
    }
}

fn messages(errors: &[ValidationError]) -> Vec<String> {
    errors.iter().map(|e| e.to_string()).collect()
}

#[test]
fn hidden_dirs_are_ignored() {
    let entries = vec![
        skill_dir(
            "my-skill",
            SkillMd::Text("---\nname: my-skill\ndescription: test\n---\n".into()),
            vec![ChildEntry { name: "SKILL.md".into(), path: "/hub/my-skill/SKILL.md".into(), is_dir: false }],
        ),
        DirListing {
            name: ".git".into(),
            path: "/hub/.git".into(),
            is_dir: true,
            skill_md_path: "/hub/.git/SKILL.md".into(),
            skill_md: SkillMd::Missing,
            children: Ok(vec![]),
        },
    ];
    let result = validate_skills_hub("/hub", &entries).unwrap();
    assert!(result.is_valid(), "errors: {:?}", result.errors);
}

#[test]
fn skills_hub_without_skill_dirs_is_refused() {
    let entries = vec![DirListing {
        name: "README.md".into(),
        path: "/hub/README.md".into(),
        is_dir: false,
        skill_md_path: "/hub/README.md/SKILL.md".into(),
        skill_md: SkillMd::Missing,
        children: Ok(vec![]),
    }];
    match validate_skills_hub("/hub", &entries) {
        Err(HubError::NoSkillDirs(p)) => assert_eq!(p, "/hub"),
        _ => panic!("expected a refusal"),
    }
}

#[test]
fn skills_hub_findings() {
    let entries = vec![
        skill_dir("no-md", SkillMd::Missing, vec![]),
        skill_dir(
            "nested",
            SkillMd::Text("---\nname: nested\n---\n".into()),
            vec![
                ChildEntry { name: "scripts".into(), path: "/hub/nested/scripts".into(), is_dir: true },
                ChildEntry { name: "inner".into(), path: "/hub/nested/inner".into(), is_dir: true },
            ],
        ),
    ];
    let result = validate_skills_hub("/hub", &entries).unwrap();
    assert!(!result.is_valid());
    assert_eq!(
        messages(&result.errors),
        vec![
            "/hub/no-md: missing SKILL.md",
            "/hub/nested/inner: nested skill directories not allowed (flat hierarchy rule)",
            "/hub/nested/SKILL.md:1: missing required field: description",
        ]
    );
}

#[test]
fn unreadable_skill_dir_stops_the_check() {
    let mut d = skill_dir("broken", SkillMd::Text("---\nname: a\ndescription: b\n---\n".into()), vec![]);
    d.children = Err("permission denied".into());
    match validate_skills_hub("/hub", &vec![d]) {
        Err(HubError::Io(m)) => assert_eq!(m, "permission denied"),
        _ => panic!("expected a read failure"),
    }
}

#[test]
fn skill_frontmatter_needs_name_and_description() {
    let errs = validate_skill_frontmatter("S.md", "---\nname: \"\"\ndescription: ~\n---\nbody");
    assert_eq!(
        messages(&errs),
        vec!["S.md:1: missing required field: name", "S.md:1: missing required field: description"]
    );
    assert!(validate_skill_frontmatter("S.md", "---\nname: a\ndescription: b\n---\n").is_empty());
}

#[test]
fn skill_frontmatter_without_closing_delimiter() {
    let errs = validate_skill_frontmatter("S.md", "---\nname: a\n");
    assert_eq!(messages(&errs), vec!["S.md:1: invalid frontmatter: missing closing ---"]);
}

#[test]
fn skill_frontmatter_with_invalid_yaml() {
    let errs = validate_skill_frontmatter("S.md", "---\nname: [unclosed\n---\n");
    assert_eq!(errs.len(), 1);
    assert!(errs[0].message.starts_with("invalid YAML: "));
    assert_eq!(errs[0].line, Some(1));
}

#[test]
fn doc_frontmatter_checks() {
    let good = "---\ntitle: T\nsummary: S\nstatus: active\nlast_updated: \"2026-01-01\"\nread_when:\n  - always\n---\n";
    assert!(validate_doc_frontmatter("d.md", good).is_empty());

    assert_eq!(
        messages(&validate_doc_frontmatter("d.md", "# no frontmatter")),
        vec!["d.md:1: missing YAML frontmatter"]
    );

    let missing = "---\ntitle: T\nread_when: []\n---\n";
    assert_eq!(
        messages(&validate_doc_frontmatter("d.md", missing)),
        vec![
            "d.md:1: missing required field: summary",
            "d.md:1: missing required field: status",
            "d.md:1: missing required field: last_updated",
            "d.md:1: missing required field: read_when (must be non-empty list)",
        ]
    );
}

#[test]
fn docs_hub_honours_ignore_rules() {
    let cfg = HubConfig::default();
    let files = vec![
        DocFile { path: "/d/README.md".into(), rel_path: "README.md".into(), file_name: "README.md".into(), content: Ok("no frontmatter".into()) },
        DocFile { path: "/d/a.md".into(), rel_path: "a.md".into(), file_name: "a.md".into(), content: Ok("no frontmatter".into()) },
        DocFile { path: "/d/b.md".into(), rel_path: "b.md".into(), file_name: "b.md".into(), content: Err("unreadable".into()) },
    ];
    let result = validate_docs_hub("/d", &cfg, &files).unwrap();
    assert_eq!(
        messages(&result.errors),
        vec!["/d/a.md:1: missing YAML frontmatter", "/d/b.md: unreadable"]
    );
}

#[test]
fn docs_hub_with_only_ignored_files_is_refused() {
    let cfg = HubConfig::default();
    let files = vec![DocFile { path: "/d/README.md".into(), rel_path: "README.md".into(), file_name: "README.md".into(), content: Ok(String::new()) }];
    match validate_docs_hub("/d", &cfg, &files) {
        Err(HubError::NoMarkdownFiles(p)) => assert_eq!(p, "/d"),
        _ => panic!("expected a refusal"),
    }
}

#[test]
fn finding_display() {
    let with_line = ValidationError { file: "a.md".into(), line: Some(120), message: "bad".into() };
    assert_eq!(with_line.to_string(), "a.md:120: bad");
    let without = ValidationError { file: "a.md".into(), line: None, message: "bad".into() };
    assert_eq!(without.to_string(), "a.md: bad");
}

#[test]
fn decimal_digits_of_numbers() {
    let s = |n: usize| decimal_digits(n).into_iter().collect::<String>();
    assert_eq!(s(0), "0");
    assert_eq!(s(7), "7");
    assert_eq!(s(10), "10");
    assert_eq!(s(90210), "90210");
    assert_eq!(s(usize::MAX), usize::MAX.to_string());
}

#[test]
fn parse_frontmatter_messages() {
    assert_eq!(parse_frontmatter("no delimiters").unwrap_err(), "invalid frontmatter: missing closing ---");
    let fm = parse_frontmatter("---\na: b\n---\n").ok().unwrap();
    assert_eq!(fm.get_str("a").unwrap(), "b");
}

#[test]
fn docs_hub_never_checks_readme() {
    let cfg = HubConfig {
        hub: agentctl::hub::config::HubSection { id: None },
        generate: agentctl::hub::config::GenerateSection { ignore: Some(vec!["draft.md".to_string()]) },
    };
    let files = vec![
        DocFile { path: "/d/ReadMe.MD".into(), rel_path: "ReadMe.MD".into(), file_name: "ReadMe.MD".into(), content: Ok("x".into()) },
        DocFile { path: "/d/sub/readme.md".into(), rel_path: "sub/readme.md".into(), file_name: "readme.md".into(), content: Ok("x".into()) },
        DocFile { path: "/d/a.md".into(), rel_path: "a.md".into(), file_name: "a.md".into(), content: Ok("x".into()) },
    ];
    let result = validate_docs_hub("/d", &cfg, &files).unwrap();
    assert_eq!(messages(&result.errors), vec!["/d/a.md:1: missing YAML frontmatter"]);
    match validate_docs_hub("/d", &cfg, &files[..2].iter().map(|f| DocFile {
        path: f.path.clone(),
        rel_path: f.rel_path.clone(),
        file_name: f.file_name.clone(),
        content: Ok("x".into()),
    }).collect()) {
        Err(HubError::NoMarkdownFiles(p)) => assert_eq!(p, "/d"),
        _ => panic!("READMEs alone leave nothing to check"),
    }
}

#[test]
fn tagged_keys_do_not_count() {
    let errs = validate_skill_frontmatter("S.md", "---
!t name: a
description: b
---
");
    assert_eq!(messages(&errs), vec!["S.md:1: missing required field: name"]);
    // a tag on a value is looked through
    assert!(validate_skill_frontmatter("S.md", "---
name: !t a
description: b
---
").is_empty());
}

use agentctl::hub::config::{GenerateSection, HubConfig, HubSection};

fn with_ignore(patterns: &[&str]) -> HubConfig {
    HubConfig {
        hub: HubSection { id: None },
        generate: GenerateSection {
            ignore: Some(patterns.iter().map(|p| p.to_string()).collect()),
        },
    }
}

#[test]
fn default_ignore_list() {
    let cfg = HubConfig::default();
    assert!(cfg.is_ignored("README.md"));
    assert!(cfg.is_ignored("readme.md")); // case-insensitive
    assert!(cfg.is_ignored("CHANGELOG.md"));
    assert!(!cfg.is_ignored("my-doc.md"));
}

#[test]
fn custom_ignore_overrides_defaults() {
    let cfg = HubConfig {
        hub: HubSection { id: None },
        generate: GenerateSection {
            ignore: Some(vec!["draft-*.md".to_string()]),
        },
    };
    assert!(!cfg.is_ignored("README.md")); // not in custom list
    assert!(cfg.is_ignored("draft-wip.md"));
}

#[test]
fn license_glob() {
    let cfg = HubConfig::default();
    // LICENSE* not in default list — only exact matches by default
    assert!(!cfg.is_ignored("LICENSE-MIT"));
}

#[test]
fn directory_patterns_exclude_all_files_in_directory() {
    let cfg = with_ignore(&["templates/"]);

    // Files in templates directory should be ignored
    assert!(cfg.is_ignored("templates/file.md"));
    assert!(cfg.is_ignored("templates/subdir/file.md"));

    // Files outside templates directory should not be ignored
    assert!(!cfg.is_ignored("docs/file.md"));
    assert!(!cfg.is_ignored("file.md"));
}

#[test]
fn path_wildcards_match_specific_patterns() {
    let cfg = with_ignore(&["rules/*.md"]);

    // Files matching path pattern should be ignored
    assert!(cfg.is_ignored("rules/file.md"));
    assert!(cfg.is_ignored("rules/test.md"));

    // Files not matching pattern should not be ignored
    assert!(!cfg.is_ignored("rules/subdir/file.md")); // deeper nesting
    assert!(!cfg.is_ignored("docs/file.md")); // different directory
    assert!(!cfg.is_ignored("file.md")); // root level
}

#[test]
fn backward_compatibility_filename_patterns_still_work() {
    let cfg = with_ignore(&["draft-*.md"]);

    // Filename patterns should work regardless of path
    assert!(cfg.is_ignored("draft-wip.md"));
    assert!(cfg.is_ignored("docs/draft-test.md"));
    assert!(cfg.is_ignored("a/b/c/draft-example.md"));

    // Non-matching filenames should not be ignored
    assert!(!cfg.is_ignored("final-doc.md"));
    assert!(!cfg.is_ignored("docs/published.md"));
}

#[test]
fn case_insensitive_matching_works() {
    let cfg = with_ignore(&["Rules/Templates/"]);

    // Case variations should all match
    assert!(cfg.is_ignored("rules/templates/file.md"));
    assert!(cfg.is_ignored("Rules/Templates/file.md"));
    assert!(cfg.is_ignored("RULES/TEMPLATES/file.md"));
}

#[test]
fn path_separator_normalization_works() {
    // The TOML string "rules\\templates\\" holds single backslashes.
    let cfg = with_ignore(&["rules\\templates\\"]);

    // Both forward and backslashes should work
    assert!(cfg.is_ignored("rules/templates/file.md"));
    assert!(cfg.is_ignored("rules\\templates\\file.md"));
}

#[test]
fn multiple_pattern_types_work_together() {
    let cfg = with_ignore(&["README.md", "draft-*.md", "templates/", "docs/private/"]);

    // Each pattern type should work
    assert!(cfg.is_ignored("README.md")); // exact filename
    assert!(cfg.is_ignored("draft-test.md")); // filename wildcard
    assert!(cfg.is_ignored("templates/file.md")); // directory
    assert!(cfg.is_ignored("docs/private/secret.md")); // directory

    // Non-matching files should not be ignored
    assert!(!cfg.is_ignored("docs/public/file.md"));
    assert!(!cfg.is_ignored("final-doc.md"));
}

#[test]
fn ignore_list_is_defaults_when_unset() {
    let cfg = HubConfig::default();
    assert_eq!(
        cfg.ignore_list(),
        vec!["README.md", "CHANGELOG.md", "CONTRIBUTING.md", "ARCHIVED.md"]
    );
    let custom = with_ignore(&["a.md", "b/"]);
    assert_eq!(custom.ignore_list(), vec!["a.md", "b/"]);
}

#[test]
fn wildcard_in_path_pattern_does_not_overlap_literal_parts() {
    // The run that `*` stands for may be empty, but it may not reuse the
    // characters of the literal parts.
    let cfg = with_ignore(&["docs/*docs.md"]);
    assert!(cfg.is_ignored("docs/docs.md"));
    assert!(cfg.is_ignored("docs/mydocs.md"));
    assert!(!cfg.is_ignored("docs.md"));
}

#[test]
fn unicode_paths_are_lowercased() {
    let cfg = with_ignore(&["ÉTÉ.md"]);
    assert!(cfg.is_ignored("été.md"));
    assert!(cfg.is_ignored("notes/Été.MD"));
}

#[test]
fn wildcard_parts_may_not_overlap_in_file_names() {
    let cfg = with_ignore(&["a*a"]);
    assert!(!cfg.is_ignored("a"));
    assert!(cfg.is_ignored("aa"));
    assert!(cfg.is_ignored("docs/abca"));
    let cfg = with_ignore(&["draft*t.md"]);
    assert!(!cfg.is_ignored("draft.md"));
    assert!(cfg.is_ignored("draft.t.md"));
}

use refstore::filter::{file_selected, select_files};
use refstore::git::{clone_args, component_count, create_tag, parse_log, parse_log_line, parse_tags, submodule_add, submodule_update};
use refstore::model::{GlobalConfig, ManifestEntry, Reference, ReferenceKind, ReferenceSource, RepositoryIndex, Timestamp};
use refstore::namemap::NameMap;
use refstore::repository::RepositoryStore;
use refstore::sync::{hash_prefix, sync_names, sync_source, synced_line, target_path, up_to_date, up_to_date_line, SyncSource, SyncTally};
use refstore::RefstoreError;

fn sample_paths() -> Vec<String> {
    ["README.md", "docs/guide.md", "docs/notes.txt", "src/lib.rs", "src/util.rs"].iter().map(|s| s.to_string()).collect()
}

fn globs(g: &[&str]) -> Vec<String> {
    g.iter().map(|s| s.to_string()).collect()
}

#[test]
fn include_filter_keeps_markdown() {
    let kept = select_files(&sample_paths(), &globs(&["*.md"]), &globs(&[])).unwrap();
    assert_eq!(kept, vec!["README.md", "docs/guide.md"]);
}

#[test]
fn exclude_filter_drops_text() {
    let kept = select_files(&sample_paths(), &globs(&[]), &globs(&["*.txt"])).unwrap();
    assert_eq!(kept, vec!["README.md", "docs/guide.md", "src/lib.rs", "src/util.rs"]);
}

#[test]
fn include_and_exclude_together() {
    let kept = select_files(&sample_paths(), &globs(&["src/*"]), &globs(&["*/util.rs"])).unwrap();
    assert_eq!(kept, vec!["src/lib.rs"]);
}

#[test]
fn nested_include() {
    let kept = select_files(&sample_paths(), &globs(&["**/*.md"]), &globs(&[])).unwrap();
    assert_eq!(kept, vec!["README.md", "docs/guide.md"]);
}

#[test]
fn no_filters_keep_all() {
    assert_eq!(select_files(&sample_paths(), &globs(&[]), &globs(&[])).unwrap(), sample_paths());
}

#[test]
fn invalid_glob_fails() {
    let err = select_files(&sample_paths(), &globs(&["a[b"]), &globs(&[])).unwrap_err();
    assert_eq!(err, RefstoreError::InvalidGlob { pattern: "a[b".to_string() });
    let err = select_files(&vec![], &globs(&[]), &globs(&["{x"])).unwrap_err();
    assert!(matches!(err, RefstoreError::InvalidGlob { .. }));
    assert!(file_selected(false, false, false));
    assert!(!file_selected(true, false, false));
    assert!(!file_selected(true, true, true));
}

#[test]
fn up_to_date_needs_equal_heads() {
    let h = "0123456789abcdef0123456789abcdef01234567";
    assert!(up_to_date(false, false, true, Some(h), Some(h)));
    assert!(!up_to_date(false, true, true, Some(h), Some(h)));
    assert!(!up_to_date(true, false, true, Some(h), Some(h)));
    assert!(!up_to_date(false, false, false, Some(h), Some(h)));
    assert!(!up_to_date(false, false, true, Some(h), Some("ffff")));
    assert!(!up_to_date(false, false, true, Some(""), Some("")));
    assert!(!up_to_date(false, false, true, None, Some(h)));
    assert_eq!(up_to_date_line("git-ref", h), "  git-ref: up to date (01234567)");
    assert_eq!(hash_prefix("abc"), "abc");
}

#[test]
fn synced_lines_and_summary() {
    assert_eq!(synced_line("docs", 0, false, None), "  docs: synced");
    assert_eq!(synced_line("docs", 0, false, Some("v1.0")), "  docs: synced (version: v1.0)");
    assert_eq!(synced_line("filtered", 2, true, None), "  filtered: synced (2 files, filtered)");
    assert_eq!(synced_line("f", 3, true, Some("abc")), "  f: synced (3 files, filtered, version: abc)");
    let mut t = SyncTally::new();
    t.record_synced();
    t.record_synced();
    t.record_failed();
    assert_eq!(t.summary(), "Sync complete: 2 synced, 1 failed");
    assert_eq!(SyncTally::new().summary(), "Sync complete: 0 synced, 0 failed");
}

#[test]
fn targets_and_names() {
    let mut entry = ManifestEntry::plain();
    assert_eq!(target_path("/p/.references", "ref-a", &entry), "/p/.references/ref-a");
    entry.path = Some("custom-a".to_string());
    assert_eq!(target_path("/p/.references", "ref-a", &entry), "/p/.references/custom-a");
    let mut resolved: NameMap<ManifestEntry> = NameMap::new();
    resolved.insert("ref-two".to_string(), ManifestEntry::plain());
    resolved.insert("ref-one".to_string(), ManifestEntry::plain());
    assert_eq!(sync_names(&resolved, None).unwrap(), vec!["ref-one", "ref-two"]);
    assert_eq!(sync_names(&resolved, Some("ref-one")).unwrap(), vec!["ref-one"]);
    assert_eq!(sync_names(&resolved, Some("x")).unwrap_err(), RefstoreError::ReferenceNotFound { name: "x".to_string() });
}

#[test]
fn pinned_entries_use_their_version() {
    let mut repo = RepositoryStore::new("/data".to_string(), RepositoryIndex::new(), GlobalConfig::default());
    repo.add(Reference {
        name: "docs".to_string(),
        kind: ReferenceKind::Directory,
        source: ReferenceSource::Local { path: "/tmp/sample".to_string() },
        description: None,
        tags: vec![],
        added_at: Timestamp { seconds: 0, nanos: 0 },
        last_synced: None,
        checksum: None,
    })
    .unwrap();
    let mut entry = ManifestEntry::plain();
    entry.version = Some("v1.0".to_string());
    assert!(matches!(sync_source(&repo, "docs", &entry), Ok(SyncSource::Pinned { ref version }) if version == "v1.0"));
    let plain = ManifestEntry::plain();
    assert!(matches!(sync_source(&repo, "docs", &plain), Ok(SyncSource::Cached { ref path }) if path == "/data/content/docs"));
    assert!(matches!(sync_source(&repo, "nonexistent", &plain), Err(RefstoreError::ReferenceNotFound { .. })));
}

#[test]
fn clone_arguments() {
    assert_eq!(
        clone_args("https://example.com/r.git", "/data/content/r", None, 1),
        vec!["clone", "--depth", "1", "--single-branch", "https://example.com/r.git", "/data/content/r"]
    );
    assert_eq!(
        clone_args("u", "t", Some("main"), 0),
        vec!["clone", "--single-branch", "--branch", "main", "u", "t"]
    );
}

#[test]
fn log_and_tags_parse() {
    let e = parse_log_line("abc123|2024-01-01T00:00:00+00:00|Add reference: my-docs").unwrap();
    assert_eq!(e.hash, "abc123");
    assert_eq!(e.date, "2024-01-01T00:00:00+00:00");
    assert_eq!(e.message, "Add reference: my-docs");
    let e = parse_log_line("h|d|a|b").unwrap();
    assert_eq!(e.message, "a|b");
    assert!(parse_log_line("no bars").is_none());
    assert!(parse_log_line("one|bar").is_none());
    let lines: Vec<String> = vec!["h2|d2|Update reference: my-docs".to_string(), "junk".to_string(), "h1|d1|Add reference: my-docs".to_string()];
    let entries = parse_log(&lines);
    assert_eq!(entries.len(), 2);
    assert_eq!(entries[0].message, "Update reference: my-docs");
    assert_eq!(parse_tags(&vec!["v2".to_string(), "".to_string(), "v1.0".to_string()]), vec!["v2", "v1.0"]);
    assert_eq!(component_count("content/foo"), 2);
    assert_eq!(component_count("content"), 1);
}

#[test]
fn submodule_and_tag_arguments() {
    assert_eq!(
        submodule_add("file:///tmp/reg", "registries/test-reg"),
        vec!["-c", "protocol.file.allow=always", "submodule", "add", "file:///tmp/reg", "registries/test-reg"]
    );
    assert_eq!(submodule_update(None), vec!["-c", "protocol.file.allow=always", "submodule", "update", "--remote"]);
    assert_eq!(submodule_update(Some("registries/r")).last().unwrap(), "registries/r");
    assert_eq!(create_tag("v1.0", Some("First release")), vec!["tag", "-a", "v1.0", "-m", "First release"]);
    assert_eq!(create_tag("v1.0", None), vec!["tag", "v1.0"]);
}

#[test]
fn git_sources_are_recognised() {
    use_git_url_checks();
}

fn use_git_url_checks() {
    assert!(refstore::git::is_git_url("https://github.com/a/b"));
    assert!(refstore::git::is_git_url("git@github.com:a/b"));
    assert!(refstore::git::is_git_url("ssh://host/x"));
    assert!(refstore::git::is_git_url("/tmp/repo.git"));
    assert!(!refstore::git::is_git_url("sample/"));
    assert!(!refstore::git::is_git_url("./docs"));
}

#[test]
fn deeply_nested_glob_is_refused() {
    let pattern = format!("{}a{}", "{".repeat(300), "}".repeat(300));
    let err = select_files(&sample_paths(), &vec![pattern.clone()], &globs(&[])).unwrap_err();
    assert_eq!(err, RefstoreError::InvalidGlob { pattern });
}

use refstore::facade::add_to_project;
use refstore::model::{Bundle, GlobalConfig, Manifest, McpScope, Reference, ReferenceKind, ReferenceSource, RepositoryIndex, Timestamp};
use refstore::project::ProjectStore;
use refstore::render::{bundle_details, bundle_line, reference_details, reference_line};
use refstore::repository::{FetchPlan, RepositoryStore};
use refstore::search::{matches_folded, search_lines, search_report};
use refstore::RefstoreError;

fn reference(name: &str, source: ReferenceSource, tags: &[&str], description: Option<&str>) -> Reference {
    Reference {
        name: name.to_string(),
        kind: ReferenceKind::Directory,
        source,
        description: description.map(String::from),
        tags: tags.iter().map(|t| t.to_string()).collect(),
        added_at: Timestamp { seconds: 0, nanos: 0 },
        last_synced: None,
        checksum: None,
    }
}

fn local(path: &str) -> ReferenceSource {
    ReferenceSource::Local { path: path.to_string() }
}

fn repo() -> RepositoryStore {
    let mut repo = RepositoryStore::new("/data".to_string(), RepositoryIndex::new(), GlobalConfig::default());
    repo.add(reference("docs", local("/tmp/sample"), &[], None)).unwrap();
    repo
}

#[test]
fn reference_lines_render() {
    let r = reference("tagged-ref", local("/s"), &["rust", "example"], Some("A useful reference"));
    assert_eq!(reference_line(&r, None), "tagged-ref (directory) - A useful reference [rust, example]");
    let plain = reference("shared", local("/s"), &[], None);
    assert_eq!(reference_line(&plain, Some("test-reg")), "test-reg: shared (directory)");
    let git = reference("g", ReferenceSource::Git { url: "https://x/y.git".to_string(), git_ref: Some("main".to_string()), subpath: None }, &[], None);
    assert_eq!(reference_details(&git), "Name: g\nKind: directory\nSource: https://x/y.git (ref: main)\nDescription: (none)\nTags: (none)");
}

#[test]
fn bundle_lines_render() {
    let b = Bundle {
        name: "my-stack".to_string(),
        description: Some("My full stack".to_string()),
        tags: vec![],
        references: vec!["ref-a".to_string(), "ref-b".to_string()],
        created_at: Timestamp { seconds: 0, nanos: 0 },
    };
    assert_eq!(bundle_line(&b), "my-stack (2 refs) - My full stack");
    assert_eq!(bundle_details(&b), "Name: my-stack\nDescription: My full stack\nTags: (none)\nReferences: ref-a, ref-b");
}

#[test]
fn search_is_case_insensitive() {
    let lines = vec!["# Sample Reference".to_string(), "nothing here".to_string(), "  more SAMPLE text  ".to_string()];
    let hits = search_lines("docs", "README.md", &lines, "sample");
    assert_eq!(hits, vec!["docs:README.md:1: # Sample Reference", "docs:README.md:3: more SAMPLE text"]);
    assert!(matches_folded("abc", "xxabcxx"));
    assert!(!matches_folded("abd", "xxabcxx"));
    assert_eq!(search_report("zzz", &vec![]), "No matches found for 'zzz'.");
    assert_eq!(search_report("q", &hits), "docs:README.md:1: # Sample Reference\ndocs:README.md:3: more SAMPLE text");
    let many: Vec<String> = (0..53).map(|i| format!("h{i}")).collect();
    let report = search_report("q", &many);
    assert!(report.starts_with("h0\nh1\n"));
    assert!(report.ends_with("h49\n... and 3 more results"));
}

#[test]
fn add_to_project_needs_write_scope() {
    let repo = repo();
    let mut project = Some(ProjectStore::new("/proj".to_string(), Manifest::new(true)));
    let err = add_to_project(McpScope::ReadOnly, &repo, &mut project, "docs").unwrap_err();
    assert_eq!(err, "MCP server is in read-only mode. Set mcp_scope to 'read_write' in config.");
    assert_eq!(project.as_ref().unwrap().manifest().references.len(), 0);
}

#[test]
fn add_to_project_adds_plain_entry() {
    let repo = repo();
    let mut project = Some(ProjectStore::new("/proj".to_string(), Manifest::new(true)));
    let ok = add_to_project(McpScope::ReadWrite, &repo, &mut project, "docs").unwrap();
    assert_eq!(ok, "Added 'docs' to project manifest. Run `refstore sync` to fetch content.");
    let entry = project.as_ref().unwrap().manifest().references.get("docs").unwrap().clone();
    assert!(entry.path.is_none() && entry.version.is_none() && entry.includes.is_empty());
    let again = add_to_project(McpScope::ReadWrite, &repo, &mut project, "docs").unwrap_err();
    assert_eq!(again, "Failed to add 'docs': reference 'docs' already exists in repository");
    let unknown = add_to_project(McpScope::ReadWrite, &repo, &mut project, "ghost").unwrap_err();
    assert_eq!(unknown, "Reference 'ghost' not found in central repository.");
    let mut none: Option<ProjectStore> = None;
    let no_project = add_to_project(McpScope::ReadWrite, &repo, &mut none, "docs").unwrap_err();
    assert_eq!(no_project, "No project manifest found. Run `refstore init` first.");
}

#[test]
fn fetch_plans_by_source() {
    let mut repo = repo();
    let r = reference("docs", local("/tmp/sample"), &[], None);
    assert!(matches!(repo.fetch_plan(&r, "/data/content/docs"), Ok(FetchPlan::CopyLocal { ref path }) if path == "/tmp/sample"));
    let g = reference("g", ReferenceSource::Git { url: "https://e/r.git".to_string(), git_ref: None, subpath: None }, &[], None);
    match repo.fetch_plan(&g, "/data/content/g").unwrap() {
        FetchPlan::Clone { args } => assert_eq!(args, vec!["clone", "--depth", "1", "--single-branch", "https://e/r.git", "/data/content/g"]),
        FetchPlan::CopyLocal { .. } => panic!("expected a clone"),
    }
    let mut c = repo.config().clone();
    c.git_depth = 0;
    repo.set_config(c);
    match repo.fetch_plan(&g, "/d").unwrap() {
        FetchPlan::Clone { args } => assert_eq!(args, vec!["clone", "--single-branch", "https://e/r.git", "/d"]),
        FetchPlan::CopyLocal { .. } => panic!("expected a clone"),
    }
    let remote = reference("rm", ReferenceSource::Remote { url: "https://r".to_string() }, &[], None);
    assert_eq!(
        repo.fetch_plan(&remote, "/d").unwrap_err(),
        RefstoreError::SyncFailed { name: "rm".to_string(), reason: "remote sources not yet supported: https://r".to_string() }
    );
}

#[test]
fn error_messages() {
    assert_eq!(RefstoreError::ReferenceNotFound { name: "x".to_string() }.message(), "reference 'x' not found in repository");
    assert_eq!(
        RefstoreError::BundleInvalidReference { bundle: "b".to_string(), reference: "nonexistent".to_string() }.message(),
        "bundle 'b' references unknown reference 'nonexistent'"
    );
    assert_eq!(RefstoreError::GitNotFound.message(), "git is not installed or not in PATH");
    assert!(RefstoreError::UnknownConfigKey { key: "k".to_string() }.message().starts_with("unknown config key: k"));
    assert_eq!(
        RefstoreError::InvalidConfigValue { key: "mcp_scope".to_string(), value: "garbage".to_string() }.message(),
        "invalid mcp_scope value: garbage"
    );
}

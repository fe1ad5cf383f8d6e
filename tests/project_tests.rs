use refstore::model::{Bundle, GlobalConfig, Manifest, ManifestEntry, Reference, ReferenceKind, ReferenceSource, RepositoryIndex, Timestamp};
use refstore::project::ProjectStore;
use refstore::repository::RepositoryStore;
use refstore::sync::{bundle_status_line, status_line, via_bundle};
use refstore::RefstoreError;

fn reference(name: &str) -> Reference {
    Reference {
        name: name.to_string(),
        kind: ReferenceKind::Directory,
        source: ReferenceSource::Local { path: "/tmp/sample".to_string() },
        description: None,
        tags: vec![],
        added_at: Timestamp { seconds: 0, nanos: 0 },
        last_synced: None,
        checksum: None,
    }
}

fn repo_with(refs: &[&str], bundles: &[(&str, &[&str])]) -> RepositoryStore {
    let mut repo = RepositoryStore::new("/data".to_string(), RepositoryIndex::new(), GlobalConfig::default());
    for r in refs {
        repo.add(reference(r)).unwrap();
    }
    for (name, members) in bundles {
        repo.add_bundle(Bundle {
            name: name.to_string(),
            description: None,
            tags: vec![],
            references: members.iter().map(|m| m.to_string()).collect(),
            created_at: Timestamp { seconds: 0, nanos: 0 },
        })
        .unwrap();
    }
    repo
}

fn project() -> ProjectStore {
    ProjectStore::new("/proj".to_string(), Manifest::new(true))
}

#[test]
fn new_manifest_is_empty() {
    let m = Manifest::new(false);
    assert_eq!(m.version, 1);
    assert!(!m.gitignore_references);
    assert_eq!(m.references.len(), 0);
    assert!(m.bundles.is_empty());
    let p = project();
    assert_eq!(p.references_dir(), "/proj/.references");
    assert_eq!(p.root(), "/proj");
}

#[test]
fn add_and_remove_reference_entries() {
    let mut p = project();
    p.add_reference("proj-ref".to_string(), ManifestEntry::plain()).unwrap();
    assert!(p.manifest().references.contains("proj-ref"));
    let err = p.add_reference("proj-ref".to_string(), ManifestEntry::plain()).unwrap_err();
    assert_eq!(err, RefstoreError::ReferenceExists { name: "proj-ref".to_string() });
    p.remove_reference("proj-ref").unwrap();
    assert!(!p.manifest().references.contains("proj-ref"));
    let err = p.remove_reference("proj-ref").unwrap_err();
    assert_eq!(err, RefstoreError::ReferenceNotFound { name: "proj-ref".to_string() });
}

#[test]
fn add_and_remove_bundle_entries() {
    let mut p = project();
    p.add_bundle("proj-bundle".to_string()).unwrap();
    assert_eq!(p.manifest().bundles, vec!["proj-bundle".to_string()]);
    assert_eq!(
        p.add_bundle("proj-bundle".to_string()).unwrap_err(),
        RefstoreError::BundleExists { name: "proj-bundle".to_string() }
    );
    p.remove_bundle("proj-bundle").unwrap();
    assert!(p.manifest().bundles.is_empty());
    assert_eq!(
        p.remove_bundle("proj-bundle").unwrap_err(),
        RefstoreError::BundleNotFound { name: "proj-bundle".to_string() }
    );
}

#[test]
fn resolve_expands_bundles() {
    let repo = repo_with(&["ref-a", "ref-b"], &[("my-stack", &["ref-a", "ref-b"])]);
    let mut p = project();
    p.add_bundle("my-stack".to_string()).unwrap();
    let resolved = p.resolve_all_references(&repo);
    assert_eq!(resolved.len(), 2);
    assert_eq!(resolved.key_at(0), "ref-a");
    assert_eq!(resolved.key_at(1), "ref-b");
    assert!(resolved.value_at(0).path.is_none());
    assert_eq!(bundle_status_line("my-stack", Some(2)), "  @my-stack: 2 references");
    let via = via_bundle(&p, &repo, "ref-a").unwrap();
    assert_eq!(status_line("ref-a", None, Some(via.as_str()), "synced"), "  ref-a (via bundle: my-stack): synced");
}

#[test]
fn explicit_entry_overrides_bundle() {
    let repo = repo_with(&["ref-a", "ref-b"], &[("override-bundle", &["ref-a", "ref-b"])]);
    let mut p = project();
    p.add_bundle("override-bundle".to_string()).unwrap();
    let mut entry = ManifestEntry::plain();
    entry.path = Some("custom-a".to_string());
    p.add_reference("ref-a".to_string(), entry).unwrap();
    let resolved = p.resolve_all_references(&repo);
    assert_eq!(resolved.len(), 2);
    assert_eq!(resolved.get("ref-a").unwrap().path, Some("custom-a".to_string()));
    assert!(resolved.get("ref-b").unwrap().path.is_none());
    assert!(via_bundle(&p, &repo, "ref-a").is_none());
    assert_eq!(via_bundle(&p, &repo, "ref-b"), Some("override-bundle".to_string()));
}

#[test]
fn first_bundle_wins_and_missing_bundle_is_skipped() {
    let repo = repo_with(&["ref-a", "ref-b", "ref-c"], &[("first", &["ref-a"]), ("second", &["ref-a", "ref-c"])]);
    let mut p = project();
    p.add_bundle("ghost".to_string()).unwrap();
    p.add_bundle("second".to_string()).unwrap();
    p.add_bundle("first".to_string()).unwrap();
    let resolved = p.resolve_all_references(&repo);
    assert_eq!(resolved.len(), 2);
    assert_eq!(via_bundle(&p, &repo, "ref-a"), Some("second".to_string()));
    assert_eq!(bundle_status_line("ghost", None), "  @ghost: (not found in repository!)");
}

#[test]
fn status_lines() {
    assert_eq!(status_line("my-ref", None, None, "synced"), "  my-ref: synced");
    assert_eq!(status_line("unsync-ref", Some("v1.0"), None, "not synced"), "  unsync-ref @ v1.0: not synced");
}

use refstore::model::{Bundle, Reference, ReferenceKind, ReferenceSource, RepositoryIndex, Timestamp};
use refstore::model::{GlobalConfig, McpScope};
use refstore::registry::RegistryStore;
use refstore::repository::RepositoryStore;
use refstore::RefstoreError;

fn ts(seconds: i64) -> Timestamp {
    Timestamp { seconds, nanos: 0 }
}

fn local_ref(name: &str, kind: ReferenceKind, tags: &[&str]) -> Reference {
    Reference {
        name: name.to_string(),
        kind,
        source: ReferenceSource::Local { path: format!("/tmp/sample/{name}") },
        description: None,
        tags: tags.iter().map(|t| t.to_string()).collect(),
        added_at: ts(1_700_000_000),
        last_synced: None,
        checksum: None,
    }
}

fn git_ref(name: &str) -> Reference {
    Reference {
        name: name.to_string(),
        kind: ReferenceKind::GitRepo,
        source: ReferenceSource::Git { url: "https://example.com/x.git".to_string(), git_ref: None, subpath: None },
        description: Some("remote docs".to_string()),
        tags: vec![],
        added_at: ts(1_700_000_000),
        last_synced: None,
        checksum: None,
    }
}

fn bundle(name: &str, refs: &[&str]) -> Bundle {
    Bundle {
        name: name.to_string(),
        description: None,
        tags: vec![],
        references: refs.iter().map(|r| r.to_string()).collect(),
        created_at: ts(1_700_000_100),
    }
}

fn empty_repo() -> RepositoryStore {
    RepositoryStore::new("/data".to_string(), RepositoryIndex::new(), GlobalConfig::default())
}

fn remote_with(name: &str, refs: Vec<Reference>) -> RegistryStore {
    let mut store = RegistryStore::from_index(format!("/data/registries/{name}"), RepositoryIndex::new());
    for r in refs {
        assert!(store.insert_reference(r));
    }
    store
}

fn names(list: &[&Reference]) -> Vec<String> {
    list.iter().map(|r| r.name.clone()).collect()
}

#[test]
fn registry_list_filters_by_tag_and_kind() {
    let mut reg = RegistryStore::from_index("/data".to_string(), RepositoryIndex::new());
    reg.insert_reference(local_ref("ref-b", ReferenceKind::Directory, &["python"]));
    reg.insert_reference(local_ref("ref-a", ReferenceKind::File, &["rust", "example"]));
    reg.insert_reference(local_ref("ref-c", ReferenceKind::Directory, &["rust"]));
    assert_eq!(names(&reg.list(None, None)), vec!["ref-a", "ref-b", "ref-c"]);
    assert_eq!(names(&reg.list(Some("rust"), None)), vec!["ref-a", "ref-c"]);
    assert_eq!(names(&reg.list(None, Some("file"))), vec!["ref-a"]);
    assert_eq!(names(&reg.list(Some("rust"), Some("directory"))), vec!["ref-c"]);
    assert!(reg.list(Some("go"), None).is_empty());
    let all = names(&reg.list(None, None));
    for r in reg.list(Some("rust"), None) {
        assert!(r.tags.iter().any(|t| t == "rust"));
        assert!(all.contains(&r.name));
    }
}

#[test]
fn content_path_is_under_content() {
    let reg = RegistryStore::from_index("/data".to_string(), RepositoryIndex::new());
    assert_eq!(reg.content_path("my-ref"), "/data/content/my-ref");
    let reg2 = RegistryStore::from_index("/data/".to_string(), RepositoryIndex::new());
    assert_eq!(reg2.content_path("my-ref"), "/data/content/my-ref");
}

#[test]
fn fresh_index_is_empty() {
    let index = RepositoryIndex::new();
    assert_eq!(index.version, 1);
    let reg = RegistryStore::from_index("/r".to_string(), index);
    assert!(reg.list(None, None).is_empty());
    assert!(reg.list_bundles(None).is_empty());
}

#[test]
fn add_then_get_returns_reference() {
    let mut repo = empty_repo();
    repo.add(local_ref("my-ref", ReferenceKind::Directory, &["rust"])).unwrap();
    let got = repo.get("my-ref").unwrap();
    assert_eq!(got.name, "my-ref");
    assert_eq!(got.tags, vec!["rust".to_string()]);
    assert_eq!(repo.content_path("my-ref"), "/data/content/my-ref");
    let resolved = repo.resolve("my-ref").unwrap();
    assert_eq!(resolved.registry_name, "local");
    assert_eq!(resolved.content_path, "/data/content/my-ref");
}

#[test]
fn add_duplicate_fails() {
    let mut repo = empty_repo();
    repo.add(local_ref("dup-ref", ReferenceKind::File, &[])).unwrap();
    let err = repo.add(local_ref("dup-ref", ReferenceKind::File, &[])).unwrap_err();
    assert_eq!(err, RefstoreError::ReferenceExists { name: "dup-ref".to_string() });
}

#[test]
fn add_invalid_name_fails() {
    let mut repo = empty_repo();
    let err = repo.add(local_ref("invalid name!", ReferenceKind::File, &[])).unwrap_err();
    assert!(matches!(err, RefstoreError::InvalidName { ref name, .. } if name == "invalid name!"));
    let err = repo.add(local_ref("", ReferenceKind::File, &[])).unwrap_err();
    assert!(matches!(err, RefstoreError::InvalidName { .. }));
    assert!(repo.list(None, None).is_empty());
}

#[test]
fn remove_then_get_is_absent() {
    let mut repo = empty_repo();
    repo.add(local_ref("to-remove", ReferenceKind::Directory, &[])).unwrap();
    let removed = repo.remove("to-remove").unwrap();
    assert_eq!(removed.name, "to-remove");
    assert!(repo.get("to-remove").is_none());
    assert!(repo.list(None, None).is_empty());
    let err = repo.remove("ghost").unwrap_err();
    assert_eq!(err, RefstoreError::ReferenceNotFound { name: "ghost".to_string() });
}

#[test]
fn update_refreshes_sync_time_and_git_checksum() {
    let mut repo = empty_repo();
    repo.add(git_ref("docs")).unwrap();
    repo.add(local_ref("plain", ReferenceKind::File, &[])).unwrap();
    repo.update("docs", ts(1_800_000_000), Some("0123456789abcdef".to_string())).unwrap();
    let docs = repo.get("docs").unwrap();
    assert_eq!(docs.last_synced, Some(ts(1_800_000_000)));
    assert_eq!(docs.checksum, Some("0123456789abcdef".to_string()));
    repo.update("plain", ts(1_800_000_001), Some("ffff".to_string())).unwrap();
    let plain = repo.get("plain").unwrap();
    assert_eq!(plain.last_synced, Some(ts(1_800_000_001)));
    assert_eq!(plain.checksum, None);
    let err = repo.update("nonexistent", ts(1), None).unwrap_err();
    assert_eq!(err, RefstoreError::ReferenceNotFound { name: "nonexistent".to_string() });
}

#[test]
fn local_shadows_remote() {
    let mut repo = empty_repo();
    repo.add(local_ref("shared", ReferenceKind::Directory, &["local-copy"])).unwrap();
    let remote = remote_with("test-reg", vec![local_ref("shared", ReferenceKind::File, &[]), git_ref("remote-docs")]);
    assert!(repo.attach_remote("test-reg".to_string(), remote));
    let shared = repo.resolve("shared").unwrap();
    assert_eq!(shared.registry_name, "local");
    assert_eq!(shared.reference.tags, vec!["local-copy".to_string()]);
    assert_eq!(shared.content_path, "/data/content/shared");
    let remote_docs = repo.resolve("remote-docs").unwrap();
    assert_eq!(remote_docs.registry_name, "test-reg");
    assert_eq!(remote_docs.content_path, "/data/registries/test-reg/content/remote-docs");
    let listed = names(&repo.list(None, None));
    assert_eq!(listed, vec!["shared", "remote-docs"]);
    assert_eq!(listed.iter().filter(|n| *n == "shared").count(), 1);
    assert_eq!(repo.list(None, None)[0].kind, ReferenceKind::Directory);
}

#[test]
fn remotes_resolve_in_name_order() {
    let mut repo = empty_repo();
    repo.attach_remote("reg2".to_string(), remote_with("reg2", vec![local_ref("both", ReferenceKind::File, &[]), local_ref("ref-from-reg2", ReferenceKind::File, &[])]));
    repo.attach_remote("reg1".to_string(), remote_with("reg1", vec![local_ref("both", ReferenceKind::Directory, &[]), local_ref("ref-from-reg1", ReferenceKind::File, &[])]));
    assert_eq!(repo.resolve("both").unwrap().registry_name, "reg1");
    assert_eq!(repo.resolve("ref-from-reg2").unwrap().registry_name, "reg2");
    assert_eq!(names(&repo.list(None, None)), vec!["both", "ref-from-reg1", "ref-from-reg2"]);
    let first = names(&repo.list(None, None));
    let second = names(&repo.list(None, None));
    assert_eq!(first, second);
    assert!(repo.resolve("nowhere").is_none());
    assert!(repo.resolve_content_path("nowhere").is_none());
}

#[test]
fn add_bundle_with_unknown_member_fails() {
    let mut repo = empty_repo();
    repo.add(local_ref("ref-a", ReferenceKind::Directory, &[])).unwrap();
    let err = repo.add_bundle(bundle("bad-bundle", &["ref-a", "nonexistent"])).unwrap_err();
    assert_eq!(
        err,
        RefstoreError::BundleInvalidReference { bundle: "bad-bundle".to_string(), reference: "nonexistent".to_string() }
    );
    assert!(repo.get_bundle("bad-bundle").is_none());
}

#[test]
fn add_bundle_then_get() {
    let mut repo = empty_repo();
    repo.add(local_ref("ref-a", ReferenceKind::Directory, &[])).unwrap();
    repo.add(local_ref("ref-b", ReferenceKind::Directory, &[])).unwrap();
    repo.add_bundle(bundle("my-stack", &["ref-a", "ref-b"])).unwrap();
    let b = repo.get_bundle("my-stack").unwrap();
    assert_eq!(b.references, vec!["ref-a".to_string(), "ref-b".to_string()]);
    assert_eq!(b.created_at, ts(1_700_000_100));
    let err = repo.add_bundle(bundle("my-stack", &["ref-a"])).unwrap_err();
    assert_eq!(err, RefstoreError::BundleExists { name: "my-stack".to_string() });
    assert_eq!(repo.list_bundles(None).len(), 1);
    let removed = repo.remove_bundle("my-stack").unwrap();
    assert_eq!(removed.name, "my-stack");
    assert!(repo.list_bundles(None).is_empty());
    assert_eq!(repo.remove_bundle("my-stack").unwrap_err(), RefstoreError::BundleNotFound { name: "my-stack".to_string() });
}

#[test]
fn bundle_list_with_tag_filter() {
    let mut repo = empty_repo();
    repo.add(local_ref("ref-a", ReferenceKind::Directory, &[])).unwrap();
    let mut tagged = bundle("tagged-bundle", &["ref-a"]);
    tagged.tags = vec!["rust".to_string()];
    repo.add_bundle(tagged).unwrap();
    repo.add_bundle(bundle("untagged-bundle", &["ref-a"])).unwrap();
    let listed: Vec<String> = repo.list_bundles(Some("rust")).iter().map(|b| b.name.clone()).collect();
    assert_eq!(listed, vec!["tagged-bundle"]);
    assert_eq!(repo.list_bundles(None).len(), 2);
}

#[test]
fn update_bundle_adds_once_and_removes() {
    let mut repo = empty_repo();
    for n in ["ref-a", "ref-b", "ref-c"] {
        repo.add(local_ref(n, ReferenceKind::Directory, &[])).unwrap();
    }
    repo.add_bundle(bundle("update-bundle", &["ref-a", "ref-b"])).unwrap();
    repo.update_bundle("update-bundle", vec!["ref-c".to_string()], vec!["ref-a".to_string()], Some("Updated".to_string())).unwrap();
    let b = repo.get_bundle("update-bundle").unwrap();
    assert_eq!(b.references, vec!["ref-b".to_string(), "ref-c".to_string()]);
    assert_eq!(b.description, Some("Updated".to_string()));
    repo.update_bundle("update-bundle", vec!["ref-c".to_string()], vec![], None).unwrap();
    let b = repo.get_bundle("update-bundle").unwrap();
    assert_eq!(b.references, vec!["ref-b".to_string(), "ref-c".to_string()]);
    assert_eq!(b.description, Some("Updated".to_string()));
    let err = repo.update_bundle("update-bundle", vec!["nope".to_string()], vec![], None).unwrap_err();
    assert_eq!(err, RefstoreError::BundleInvalidReference { bundle: "update-bundle".to_string(), reference: "nope".to_string() });
    let err = repo.update_bundle("missing", vec![], vec![], None).unwrap_err();
    assert_eq!(err, RefstoreError::BundleNotFound { name: "missing".to_string() });
}

#[test]
fn registry_add_then_remove_restores_names() {
    let mut repo = empty_repo();
    let before: Vec<String> = (0..repo.remote_count()).map(|i| repo.remote_at(i).0.clone()).collect();
    repo.add_registry("test-reg", "file:///tmp/remote", false).unwrap();
    assert_eq!(repo.remote_count(), 1);
    assert_eq!(repo.remote_at(0).0, "test-reg");
    assert_eq!(repo.config().registries.len(), 1);
    assert_eq!(repo.config().registries[0].url, "file:///tmp/remote");
    let err = repo.add_registry("test-reg", "file:///tmp/remote", true).unwrap_err();
    assert_eq!(err, RefstoreError::RegistryExists { name: "test-reg".to_string() });
    repo.remove_registry("test-reg", true).unwrap();
    let after: Vec<String> = (0..repo.remote_count()).map(|i| repo.remote_at(i).0.clone()).collect();
    assert_eq!(before, after);
    assert!(repo.config().registries.is_empty());
}

#[test]
fn registry_local_name_reserved() {
    let mut repo = empty_repo();
    let err = repo.add_registry("local", "https://example.com/reg.git", false).unwrap_err();
    assert_eq!(err, RefstoreError::ReservedName { name: "local".to_string() });
    assert_eq!(err.message(), "'local' is reserved for the local registry");
    assert_eq!(repo.remote_count(), 0);
}

#[test]
fn registry_remove_not_found() {
    let mut repo = empty_repo();
    let err = repo.remove_registry("nonexistent", false).unwrap_err();
    assert_eq!(err, RefstoreError::RegistryNotFound { name: "nonexistent".to_string() });
}

#[test]
fn reload_registry_replaces_contents() {
    let mut repo = empty_repo();
    repo.add_registry("updatable-reg", "file:///tmp/u", false).unwrap();
    assert!(repo.list(None, None).is_empty());
    let fresh = remote_with("updatable-reg", vec![local_ref("first-ref", ReferenceKind::File, &[]), local_ref("new-ref", ReferenceKind::File, &[])]);
    assert!(repo.reload_registry("updatable-reg", fresh));
    assert_eq!(repo.remote_at(0).1.list(None, None).len(), 2);
    let other = remote_with("other", vec![]);
    assert!(!repo.reload_registry("other", other));
}

#[test]
fn push_copies_into_target() {
    let mut repo = empty_repo();
    repo.add(local_ref("push-me", ReferenceKind::Directory, &["team"])).unwrap();
    let mut target = RegistryStore::from_index("/team-registry".to_string(), RepositoryIndex::new());
    repo.push_to("push-me", &mut target).unwrap();
    assert_eq!(target.get("push-me").unwrap().tags, vec!["team".to_string()]);
    assert_eq!(
        repo.push_to("push-me", &mut target).unwrap_err(),
        RefstoreError::ReferenceExists { name: "push-me".to_string() }
    );
    assert_eq!(
        repo.push_to("ghost-ref", &mut target).unwrap_err(),
        RefstoreError::ReferenceNotFound { name: "ghost-ref".to_string() }
    );
}

#[test]
fn config_defaults() {
    let c = GlobalConfig::default();
    assert_eq!(c.mcp_scope, McpScope::ReadOnly);
    assert_eq!(c.git_depth, 1);
    assert!(c.default_branch.is_none());
    assert_eq!(McpScope::ReadWrite.as_str(), "read_write");
    assert_eq!(ReferenceKind::GitRepo.as_str(), "git_repo");
}

#[test]
fn registries_stay_in_name_order() {
    let mut repo = empty_repo();
    repo.add_registry("zeta", "file:///z", false).unwrap();
    repo.add_registry("alpha", "file:///a", false).unwrap();
    assert_eq!(repo.remote_at(0).0, "alpha");
    assert_eq!(repo.remote_at(1).0, "zeta");
    assert_eq!(repo.remote_at(0).1.root(), "/data/registries/alpha");
    assert_eq!(repo.config().registries[0].name, "zeta");
    let err = repo.add_registry("bad name", "file:///b", false).unwrap_err();
    assert!(matches!(err, RefstoreError::InvalidName { ref name, .. } if name == "bad name"));
    assert_eq!(repo.add_registry("zeta", "file:///z", false).unwrap_err(), RefstoreError::RegistryExists { name: "zeta".to_string() });
}

use vstd::prelude::*;

use crate::error::RefstoreError;
use crate::model::ManifestEntry;
use crate::namemap::NameMap;
use crate::project::ProjectStore;
use crate::repository::RepositoryStore;
use crate::text::{contains_str, decimal, decimal_string, join_path, opt_str, path_join, str_views};

verus! {

/// Where an entry is materialized: its path override, else its name, under `refs_dir`.
pub open spec fn target_of(refs_dir: Seq<char>, name: Seq<char>, path: Option<String>) -> Seq<char> {
    path_join(
        refs_dir,
        match path {
            Some(p) => p@,
            None => name,
        },
    )
}

pub fn target_path(refs_dir: &str, name: &str, entry: &ManifestEntry) -> (r: String)
    ensures
        r@ == target_of(refs_dir@, name@, entry.path),
{
    match &entry.path {
        Some(p) => join_path(refs_dir, p.as_str()),
        None => join_path(refs_dir, name),
    }
}

/// The names to materialize, in name order: all resolved entries, or just
/// `only`, which must be among them.
pub fn sync_names(resolved: &NameMap<ManifestEntry>, only: Option<&str>) -> (r: Result<Vec<String>, RefstoreError>)
    requires
        resolved.wf(),
    ensures
        match only {
            None => r matches Ok(v) && str_views(v@) == resolved.seq().map_values(
                |e: (Seq<char>, ManifestEntry)| e.0,
            ),
            Some(n) => if resolved@.contains_key(n@) {
                r matches Ok(v) && str_views(v@) == seq![n@]
            } else {
                r matches Err(RefstoreError::ReferenceNotFound { name: x }) && x@ == n@
            },
        },
{
    match only {
        Some(n) => {
            if resolved.contains(n) {
                let mut v: Vec<String> = Vec::new();
                v.push(String::from_str(n));
                assert(str_views(v@) =~= seq![n@]);
                Ok(v)
            } else {
                Err(RefstoreError::ReferenceNotFound { name: String::from_str(n) })
            }
        },
        None => {
            let ghost keys = resolved.seq().map_values(|e: (Seq<char>, ManifestEntry)| e.0);
            let mut v: Vec<String> = Vec::new();
            let n = resolved.len();
            let mut i: usize = 0;
            while i < n
                invariant
                    n == resolved.seq().len(),
                    keys == resolved.seq().map_values(|e: (Seq<char>, ManifestEntry)| e.0),
                    i <= n,
                    str_views(v@) == keys.subrange(0, i as int),
                decreases n - i,
            {
                assert(keys[i as int] == resolved.seq()[i as int].0);
                let k = resolved.key_at(i);
                let kc = k.clone();
                assert(kc@ == keys[i as int]);
                let ghost before = v@;
                v.push(kc);
                assert(v@ == before.push(kc));
                assert(str_views(v@) =~= str_views(before).push(kc@));
                i = i + 1;
                assert(keys.subrange(0, i as int) =~= keys.subrange(0, i as int - 1).push(kc@));
            }
            assert(keys.subrange(0, n as int) =~= keys);
            Ok(v)
        },
    }
}

/// Where an entry's content comes from.
#[derive(Debug)]
pub enum SyncSource {
    /// Extract the reference at this tag or commit of the local history.
    Pinned { version: String },
    /// Copy the current content from this directory.
    Cached { path: String },
}

/// Where to take `name`'s content from: its pinned version if it has one,
/// else the content directory of the registry it resolves from; refused
/// when it resolves nowhere.
pub fn sync_source(repo: &RepositoryStore, name: &str, entry: &ManifestEntry) -> (r: Result<SyncSource, RefstoreError>)
    requires
        repo.wf(),
    ensures
        !repo.resolves(name@) ==> (r matches Err(RefstoreError::ReferenceNotFound { name: x }) && x@ == name@),
        repo.resolves(name@) ==> match entry.version {
            Some(v) => r matches Ok(SyncSource::Pinned { version }) && version == v,
            None => r matches Ok(SyncSource::Cached { path }) && path@ == repo.regs()[repo.resolution(name@)].spec_content_path(name@),
        },
{
    match repo.resolve_content_path(name) {
        None => Err(RefstoreError::ReferenceNotFound { name: String::from_str(name) }),
        Some(path) => match &entry.version {
            Some(v) => Ok(SyncSource::Pinned { version: v.clone() }),
            None => Ok(SyncSource::Cached { path }),
        },
    }
}

/// Copying is skipped when nothing is pinned, nothing forced, the target
/// exists, and source and target are git checkouts at the same non-empty head.
pub open spec fn skip_copy(
    pinned: bool,
    force: bool,
    target_exists: bool,
    source_head: Option<Seq<char>>,
    target_head: Option<Seq<char>>,
) -> bool {
    &&& !pinned
    &&& !force
    &&& target_exists
    &&& source_head matches Some(s)
    &&& target_head matches Some(t)
    &&& s == t
    &&& s.len() > 0
}

pub fn up_to_date(
    pinned: bool,
    force: bool,
    target_exists: bool,
    source_head: Option<&str>,
    target_head: Option<&str>,
) -> (r: bool)
    ensures
        r == skip_copy(pinned, force, target_exists, opt_str(source_head), opt_str(target_head)),
{
    if pinned || force || !target_exists {
        return false;
    }
    match (source_head, target_head) {
        (Some(s), Some(t)) => crate::text::str_eq(s, t) && s.unicode_len() > 0,
        _ => false,
    }
}

/// The first eight characters of a commit hash, or all of a shorter one.
pub open spec fn short_hash(h: Seq<char>) -> Seq<char> {
    if h.len() <= 8 {
        h
    } else {
        h.subrange(0, 8)
    }
}

pub fn hash_prefix(hash: &str) -> (r: String)
    ensures
        r@ == short_hash(hash@),
{
    let n = hash.unicode_len();
    if n <= 8 {
        String::from_str(hash)
    } else {
        String::from_str(hash.substring_char(0, 8))
    }
}

/// The report of an entry left as it was.
pub fn up_to_date_line(name: &str, hash: &str) -> (r: String)
    ensures
        r@ == "  "@ + name@ + ": up to date ("@ + short_hash(hash@) + ")"@,
{
    let mut s = String::from_str("  ");
    s.append(name);
    s.append(": up to date (");
    let p = hash_prefix(hash);
    s.append(p.as_str());
    s.append(")");
    s
}

/// What follows `synced` in an entry's report: the file count when
/// filters applied, the pinned version, in parentheses, or nothing.
pub open spec fn synced_suffix(copied: u64, filtered: bool, version: Option<Seq<char>>) -> Seq<char> {
    if filtered {
        match version {
            Some(v) => " ("@ + decimal(copied as nat) + " files, filtered, version: "@ + v + ")"@,
            None => " ("@ + decimal(copied as nat) + " files, filtered)"@,
        }
    } else {
        match version {
            Some(v) => " (version: "@ + v + ")"@,
            None => ""@,
        }
    }
}

/// The report of an entry copied into place.
pub fn synced_line(name: &str, copied: u64, filtered: bool, version: Option<&str>) -> (r: String)
    ensures
        r@ == "  "@ + name@ + ": synced"@ + synced_suffix(copied, filtered, opt_str(version)),
{
    let mut s = String::from_str("  ");
    s.append(name);
    s.append(": synced");
    if filtered {
        s.append(" (");
        let c = decimal_string(copied);
        s.append(c.as_str());
        match version {
            Some(v) => {
                s.append(" files, filtered, version: ");
                s.append(v);
                s.append(")");
            },
            None => {
                s.append(" files, filtered)");
            },
        }
    } else {
        match version {
            Some(v) => {
                s.append(" (version: ");
                s.append(v);
                s.append(")");
            },
            None => {
                s.append("");
            },
        }
    }
    s
}

/// Counts of entries synced and failed during one pass.
pub struct SyncTally {
    pub synced: u64,
    pub failed: u64,
}

impl SyncTally {
    pub fn new() -> (r: Self)
        ensures
            r.synced == 0 && r.failed == 0,
    {
        SyncTally { synced: 0, failed: 0 }
    }

    /// Counts one more entry synced (the count stays at its maximum once there).
    pub fn record_synced(&mut self)
        ensures
            final(self).synced == if old(self).synced < u64::MAX {
                (old(self).synced + 1) as u64
            } else {
                old(self).synced
            },
            final(self).failed == old(self).failed,
    {
        if self.synced < u64::MAX {
            self.synced = self.synced + 1;
        }
    }

    /// Counts one more entry failed (the count stays at its maximum once there).
    pub fn record_failed(&mut self)
        ensures
            final(self).failed == if old(self).failed < u64::MAX {
                (old(self).failed + 1) as u64
            } else {
                old(self).failed
            },
            final(self).synced == old(self).synced,
    {
        if self.failed < u64::MAX {
            self.failed = self.failed + 1;
        }
    }

    /// `Sync complete: <synced> synced, <failed> failed`.
    pub fn summary(&self) -> (r: String)
        ensures
            r@ == "Sync complete: "@ + decimal(self.synced as nat) + " synced, "@ + decimal(
                self.failed as nat,
            ) + " failed"@,
    {
        let mut s = String::from_str("Sync complete: ");
        let a = decimal_string(self.synced);
        s.append(a.as_str());
        s.append(" synced, ");
        let b = decimal_string(self.failed);
        s.append(b.as_str());
        s.append(" failed");
        s
    }
}

/// The first listed bundle that resolves and names `name` as a member.
pub open spec fn first_contributor(repo: RepositoryStore, bundles: Seq<Seq<char>>, name: Seq<char>, i: int) -> bool {
    &&& 0 <= i < bundles.len()
    &&& repo.bundle_resolves(bundles[i])
    &&& str_views(repo.resolved_bundle(bundles[i]).references@).contains(name)
    &&& forall|j: int|
        0 <= j < i ==> !(repo.bundle_resolves(#[trigger] bundles[j]) && str_views(
            repo.resolved_bundle(bundles[j]).references@,
        ).contains(name))
}

/// For a name with no explicit entry, the first listed bundle that brings
/// it in; `None` for an explicit entry or a name no bundle brings in.
pub fn via_bundle(project: &ProjectStore, repo: &RepositoryStore, name: &str) -> (r: Option<String>)
    requires
        project.wf(),
        repo.wf(),
    ensures
        project.entries().contains_key(name@) ==> r is None,
        !project.entries().contains_key(name@) ==> match r {
            Some(b) => exists|i: int| first_contributor(*repo, project.bundle_names(), name@, i) && project.bundle_names()[i] == b@,
            None => forall|i: int| 0 <= i < project.bundle_names().len() ==> !(repo.bundle_resolves(#[trigger] project.bundle_names()[i]) && str_views(
                repo.resolved_bundle(project.bundle_names()[i]).references@,
            ).contains(name@)),
        },
{
    let manifest = project.manifest();
    if manifest.references.contains(name) {
        return None;
    }
    let ghost bn = project.bundle_names();
    let n = manifest.bundles.len();
    let mut i: usize = 0;
    while i < n
        invariant
            n == manifest.bundles@.len(),
            bn == str_views(manifest.bundles@),
            *manifest == *project.spec_manifest(),
            !project.entries().contains_key(name@),
            repo.wf(),
            i <= n,
            forall|j: int| 0 <= j < i ==> !(repo.bundle_resolves(#[trigger] bn[j]) && str_views(
                repo.resolved_bundle(bn[j]).references@,
            ).contains(name@)),
        decreases n - i,
    {
        assert(bn[i as int] == manifest.bundles@[i as int]@);
        match repo.get_bundle(manifest.bundles[i].as_str()) {
            Some(b) => {
                if contains_str(&b.references, name) {
                    assert(first_contributor(*repo, bn, name@, i as int));
                    return Some(manifest.bundles[i].clone());
                }
            },
            None => {},
        }
        i = i + 1;
    }
    None
}

/// An entry's line in the project status: name, pinned version, the bundle
/// it came through, and its state.
pub fn status_line(name: &str, version: Option<&str>, bundle: Option<&str>, state: &str) -> (r: String)
    ensures
        r@ == "  "@ + name@ + (match opt_str(version) {
            Some(v) => " @ "@ + v,
            None => ""@,
        }) + (match opt_str(bundle) {
            Some(b) => " (via bundle: "@ + b + ")"@,
            None => ""@,
        }) + ": "@ + state@,
{
    let mut s = String::from_str("  ");
    s.append(name);
    match version {
        Some(v) => {
            s.append(" @ ");
            s.append(v);
        },
        None => {
            s.append("");
        },
    }
    match bundle {
        Some(b) => {
            s.append(" (via bundle: ");
            s.append(b);
            s.append(")");
        },
        None => {
            s.append("");
        },
    }
    s.append(": ");
    s.append(state);
    s
}

/// A listed bundle's line in the project status: its member count, or that
/// it resolves nowhere.
pub fn bundle_status_line(bundle: &str, members: Option<u64>) -> (r: String)
    ensures
        r@ == "  @"@ + bundle@ + match members {
            Some(n) => ": "@ + decimal(n as nat) + " references"@,
            None => ": (not found in repository!)"@,
        },
{
    let mut s = String::from_str("  @");
    s.append(bundle);
    match members {
        Some(n) => {
            s.append(": ");
            let d = decimal_string(n);
            s.append(d.as_str());
            s.append(" references");
        },
        None => {
            s.append(": (not found in repository!)");
        },
    }
    s
}

} // verus!

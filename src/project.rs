use vstd::prelude::*;

use crate::error::RefstoreError;
use crate::model::{Manifest, ManifestEntry};
use crate::namemap::NameMap;
use crate::repository::RepositoryStore;
use crate::text::{contains_str, join_path, path_join, str_eq, str_views};

verus! {

/// The view of an entry with no path override, no pin and no filters.
pub open spec fn plain_entry() -> (Option<String>, Option<String>, Seq<String>, Seq<String>) {
    (None, None, Seq::empty(), Seq::empty())
}

/// The names that the resolvable bundles among `bundles` contribute.
pub open spec fn contributed(repo: RepositoryStore, bundles: Seq<Seq<char>>) -> Set<Seq<char>> {
    Set::new(
        |m: Seq<char>|
            exists|i: int|
                0 <= i < bundles.len() && repo.bundle_resolves(#[trigger] bundles[i]) && str_views(
                    repo.resolved_bundle(bundles[i]).references@,
                ).contains(m),
    )
}

/// The entries of `explicit`, plus a plain entry for each other name that a
/// bundle contributes.
pub open spec fn all_entries(
    explicit: Map<Seq<char>, ManifestEntry>,
    repo: RepositoryStore,
    bundles: Seq<Seq<char>>,
) -> Map<Seq<char>, (Option<String>, Option<String>, Seq<String>, Seq<String>)> {
    Map::new(
        |k: Seq<char>| explicit.contains_key(k) || contributed(repo, bundles).contains(k),
        |k: Seq<char>|
            if explicit.contains_key(k) {
                explicit[k]@
            } else {
                plain_entry()
            },
    )
}

/// A project: its root directory and its manifest.
pub struct ProjectStore {
    root: String,
    manifest: Manifest,
}

impl ProjectStore {
    pub closed spec fn root_view(&self) -> Seq<char> {
        self.root@
    }

    pub closed spec fn spec_manifest(&self) -> &Manifest {
        &self.manifest
    }

    pub open spec fn wf(&self) -> bool {
        self.spec_manifest().wf()
    }

    pub open spec fn entries(&self) -> Map<Seq<char>, ManifestEntry> {
        self.spec_manifest().references@
    }

    pub open spec fn bundle_names(&self) -> Seq<Seq<char>> {
        str_views(self.spec_manifest().bundles@)
    }

    /// A project rooted at `root` with `manifest`.
    pub fn new(root: String, manifest: Manifest) -> (r: Self)
        requires
            manifest.wf(),
        ensures
            r.wf(),
            r.root_view() == root@,
            *r.spec_manifest() == manifest,
    {
        ProjectStore { root, manifest }
    }

    pub fn root(&self) -> (r: &String)
        ensures
            r@ == self.root_view(),
    {
        &self.root
    }

    pub fn manifest(&self) -> (r: &Manifest)
        ensures
            *r == *self.spec_manifest(),
    {
        &self.manifest
    }

    /// Where references are materialized: `<root>/.references`.
    pub fn references_dir(&self) -> (r: String)
        ensures
            r@ == path_join(self.root_view(), ".references"@),
    {
        join_path(self.root.as_str(), ".references")
    }

    /// Adds an explicit entry; refused when `name` has one already.  The
    /// caller saves the manifest.
    pub fn add_reference(&mut self, name: String, entry: ManifestEntry) -> (r: Result<(), RefstoreError>)
        requires
            old(self).wf(),
        ensures
            final(self).wf(),
            final(self).root_view() == old(self).root_view(),
            final(self).spec_manifest().version == old(self).spec_manifest().version,
            final(self).spec_manifest().gitignore_references == old(self).spec_manifest().gitignore_references,
            final(self).bundle_names() == old(self).bundle_names(),
            r is Ok <==> !old(self).entries().contains_key(name@),
            r is Ok ==> final(self).entries() == old(self).entries().insert(name@, entry),
            r is Err ==> r == Err::<(), RefstoreError>(RefstoreError::ReferenceExists { name })
                && *final(self) == *old(self),
    {
        if self.manifest.references.contains(name.as_str()) {
            return Err(RefstoreError::ReferenceExists { name });
        }
        self.manifest.references.insert(name, entry);
        Ok(())
    }

    /// Takes out an explicit entry, handing it back; refused when absent.
    pub fn remove_reference(&mut self, name: &str) -> (r: Result<ManifestEntry, RefstoreError>)
        requires
            old(self).wf(),
        ensures
            final(self).wf(),
            final(self).root_view() == old(self).root_view(),
            final(self).spec_manifest().version == old(self).spec_manifest().version,
            final(self).spec_manifest().gitignore_references == old(self).spec_manifest().gitignore_references,
            final(self).bundle_names() == old(self).bundle_names(),
            r is Ok <==> old(self).entries().contains_key(name@),
            r matches Ok(e) ==> e == old(self).entries()[name@] && final(self).entries()
                == old(self).entries().remove(name@),
            r matches Err(e) ==> (e matches RefstoreError::ReferenceNotFound { name: n } && n@ == name@
                && *final(self) == *old(self)),
    {
        match self.manifest.references.remove(name) {
            Some(e) => Ok(e),
            None => Err(RefstoreError::ReferenceNotFound { name: String::from_str(name) }),
        }
    }

    /// Appends a bundle to expand; refused when it is listed already.
    pub fn add_bundle(&mut self, name: String) -> (r: Result<(), RefstoreError>)
        requires
            old(self).wf(),
        ensures
            final(self).wf(),
            final(self).root_view() == old(self).root_view(),
            final(self).spec_manifest().version == old(self).spec_manifest().version,
            final(self).spec_manifest().gitignore_references == old(self).spec_manifest().gitignore_references,
            final(self).entries() == old(self).entries(),
            r is Ok <==> !old(self).bundle_names().contains(name@),
            r is Ok ==> final(self).bundle_names() == old(self).bundle_names().push(name@),
            r is Err ==> r == Err::<(), RefstoreError>(RefstoreError::BundleExists { name })
                && *final(self) == *old(self),
    {
        if contains_str(&self.manifest.bundles, name.as_str()) {
            return Err(RefstoreError::BundleExists { name });
        }
        self.manifest.bundles.push(name);
        assert(self.bundle_names() =~= old(self).bundle_names().push(name@));
        Ok(())
    }

    /// Drops a bundle from the list to expand; refused when it is not listed.
    pub fn remove_bundle(&mut self, name: &str) -> (r: Result<(), RefstoreError>)
        requires
            old(self).wf(),
        ensures
            final(self).wf(),
            final(self).root_view() == old(self).root_view(),
            final(self).spec_manifest().version == old(self).spec_manifest().version,
            final(self).spec_manifest().gitignore_references == old(self).spec_manifest().gitignore_references,
            final(self).entries() == old(self).entries(),
            r is Ok <==> old(self).bundle_names().contains(name@),
            r is Ok ==> final(self).bundle_names() == old(self).bundle_names().filter(|b: Seq<char>| b != name@),
            r matches Err(e) ==> (e matches RefstoreError::BundleNotFound { name: n } && n@ == name@
                && *final(self) == *old(self)),
    {
        if !contains_str(&self.manifest.bundles, name) {
            return Err(RefstoreError::BundleNotFound { name: String::from_str(name) });
        }
        let ghost views = self.bundle_names();
        let ghost keep = |b: Seq<char>| b != name@;
        let mut kept: Vec<String> = Vec::new();
        let n = self.manifest.bundles.len();
        let mut i: usize = 0;
        while i < n
            invariant
                n == self.manifest.bundles@.len(),
                views == str_views(self.manifest.bundles@),
                keep == (|b: Seq<char>| b != name@),
                i <= n,
                str_views(kept@) == views.subrange(0, i as int).filter(keep),
            decreases n - i,
        {
            proof {
                assert(views.subrange(0, i as int + 1).drop_last() =~= views.subrange(0, i as int));
                views.subrange(0, i as int).lemma_filter_push(views[i as int], keep);
            }
            assert(views.subrange(0, i as int + 1) =~= views.subrange(0, i as int).push(views[i as int]));
            if !str_eq(self.manifest.bundles[i].as_str(), name) {
                kept.push(self.manifest.bundles[i].clone());
                assert(str_views(kept@) =~= views.subrange(0, i as int + 1).filter(keep));
            } else {
                assert(str_views(kept@) =~= views.subrange(0, i as int + 1).filter(keep));
            }
            i = i + 1;
        }
        assert(views.subrange(0, n as int) =~= views);
        self.manifest.bundles = kept;
        Ok(())
    }

    /// The entries to materialize: every explicit entry, and a plain entry for
    /// each member of a listed bundle that resolves, unless an explicit entry
    /// or an earlier contribution has that name.  Keys come in name order.
    pub fn resolve_all_references(&self, repo: &RepositoryStore) -> (r: NameMap<ManifestEntry>)
        requires
            self.wf(),
            repo.wf(),
        ensures
            r.wf(),
            r@.dom() == all_entries(self.entries(), *repo, self.bundle_names()).dom(),
            forall|k: Seq<char>| #[trigger] r@.contains_key(k) ==> r@[k]@ == all_entries(self.entries(), *repo, self.bundle_names())[k],
    {
        let ghost explicit = self.entries();
        let ghost bnames = self.bundle_names();
        let mut out: NameMap<ManifestEntry> = NameMap::new();
        let refs = &self.manifest.references;
        let n = refs.len();
        let mut i: usize = 0;
        while i < n
            invariant
                refs.wf(),
                explicit == refs@,
                n == refs.seq().len(),
                i <= n,
                out.wf(),
                forall|k: Seq<char>| #[trigger] out@.contains_key(k) <==> exists|j: int| 0 <= j < i && refs.seq()[j].0 == k,
                forall|k: Seq<char>| #[trigger] out@.contains_key(k) ==> explicit.contains_key(k) && out@[k]@ == explicit[k]@,
            decreases n - i,
        {
            let key = refs.key_at(i);
            let entry = refs.value_at(i);
            proof {
                refs.lemma_index(i as int);
            }
            let ghost before = out@;
            let added = out.insert(key.clone(), entry.duplicate());
            proof {
                if !added {
                    let j = choose|j: int| 0 <= j < i && refs.seq()[j].0 == key@;
                    assert(crate::text::name_lt(refs.seq()[j].0, refs.seq()[i as int].0));
                    crate::text::lemma_name_lt_irreflexive(key@);
                }
                assert forall|k: Seq<char>| #[trigger] out@.contains_key(k) <==> exists|j: int| 0 <= j < i + 1 && refs.seq()[j].0 == k by {
                    if k == key@ {
                        assert(refs.seq()[i as int].0 == k);
                    }
                    if exists|j: int| 0 <= j < i + 1 && refs.seq()[j].0 == k {
                        let j = choose|j: int| 0 <= j < i + 1 && refs.seq()[j].0 == k;
                        if j < i {
                            assert(before.contains_key(k));
                        }
                    }
                }
            }
            i = i + 1;
        }
        proof {
            assert forall|k: Seq<char>| explicit.contains_key(k) implies #[trigger] out@.contains_key(k) by {
                let j = crate::namemap::index_of(refs.seq(), k);
                refs.lemma_index(j);
            }
        }
        let nb = self.manifest.bundles.len();
        let mut b: usize = 0;
        while b < nb
            invariant
                nb == self.manifest.bundles@.len(),
                bnames == str_views(self.manifest.bundles@),
                explicit == self.entries(),
                repo.wf(),
                b <= nb,
                out.wf(),
                forall|k: Seq<char>| #[trigger] out@.contains_key(k) <==> explicit.contains_key(k) || contributed(*repo, bnames.subrange(0, b as int)).contains(k),
                forall|k: Seq<char>| #[trigger] out@.contains_key(k) ==> out@[k]@ == (if explicit.contains_key(k) {
                    explicit[k]@
                } else {
                    plain_entry()
                }),
            decreases nb - b,
        {
            let ghost prev = bnames.subrange(0, b as int);
            let ghost next = bnames.subrange(0, b as int + 1);
            assert forall|m: Seq<char>| #[trigger] contributed(*repo, next).contains(m) <==> contributed(*repo, prev).contains(m)
                || (repo.bundle_resolves(bnames[b as int]) && str_views(repo.resolved_bundle(bnames[b as int]).references@).contains(m)) by {
                if contributed(*repo, next).contains(m) {
                    let j = choose|j: int| 0 <= j < next.len() && repo.bundle_resolves(#[trigger] next[j]) && str_views(repo.resolved_bundle(next[j]).references@).contains(m);
                    if j < b {
                        assert(prev[j] == next[j]);
                    }
                }
                if contributed(*repo, prev).contains(m) {
                    let j = choose|j: int| 0 <= j < prev.len() && repo.bundle_resolves(#[trigger] prev[j]) && str_views(repo.resolved_bundle(prev[j]).references@).contains(m);
                    assert(next[j] == prev[j]);
                }
                if repo.bundle_resolves(bnames[b as int]) && str_views(repo.resolved_bundle(bnames[b as int]).references@).contains(m) {
                    assert(next[b as int] == bnames[b as int]);
                }
            }
            match repo.get_bundle(self.manifest.bundles[b].as_str()) {
                None => {},
                Some(bundle) => {
                    let ghost members = str_views(bundle.references@);
                    let nm = bundle.references.len();
                    let mut j: usize = 0;
                    while j < nm
                        invariant
                            nm == bundle.references@.len(),
                            members == str_views(bundle.references@),
                            j <= nm,
                            out.wf(),
                            forall|k: Seq<char>| #[trigger] out@.contains_key(k) <==> explicit.contains_key(k) || contributed(*repo, prev).contains(k)
                                || members.subrange(0, j as int).contains(k),
                            forall|k: Seq<char>| #[trigger] out@.contains_key(k) ==> out@[k]@ == (if explicit.contains_key(k) {
                                explicit[k]@
                            } else {
                                plain_entry()
                            }),
                        decreases nm - j,
                    {
                        let m = &bundle.references[j];
                        let added = out.insert(m.clone(), ManifestEntry::plain());
                        proof {
                            let s1 = members.subrange(0, j as int + 1);
                            let s0 = members.subrange(0, j as int);
                            assert forall|k: Seq<char>| s1.contains(k) <==> s0.contains(k) || k == m@ by {
                                if s1.contains(k) {
                                    let x = choose|x: int| 0 <= x < s1.len() && s1[x] == k;
                                    if x < j {
                                        assert(s0[x] == k);
                                    }
                                }
                                if s0.contains(k) {
                                    let x = choose|x: int| 0 <= x < s0.len() && s0[x] == k;
                                    assert(s1[x] == k);
                                }
                                if k == m@ {
                                    assert(s1[j as int] == k);
                                }
                            }
                            if added {
                                assert(!explicit.contains_key(m@));
                            }
                        }
                        j = j + 1;
                    }
                    assert(members.subrange(0, nm as int) =~= members);
                },
            }
            b = b + 1;
        }
        assert(bnames.subrange(0, nb as int) =~= bnames);
        assert(out@.dom() =~= all_entries(explicit, *repo, bnames).dom());
        out
    }
}

} // verus!

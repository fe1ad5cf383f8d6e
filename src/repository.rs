use vstd::prelude::*;

use crate::error::RefstoreError;
use crate::model::{Bundle, GlobalConfig, Reference, ReferenceSource, Registry, RepositoryIndex, Timestamp};
use crate::names::{valid_name, validate_name};
use crate::namemap::NameMap;
use crate::registry::{derefs, selected_bundles, selected_refs, RegistryStore};
use crate::git::{clone_args, clone_argv};
use crate::text::{contains_str, join_path, opt_str, opt_string, str_eq, str_views};

verus! {

/// Where a name was found: the reference, its content directory, and the
/// registry it came from (`local`, or the remote's name).
pub struct ResolvedReference<'a> {
    pub reference: &'a Reference,
    pub content_path: String,
    pub registry_name: String,
}

/// The names of a sequence of references.
pub open spec fn ref_names(s: Seq<Reference>) -> Seq<Seq<char>> {
    s.map_values(|r: Reference| r.name@)
}

/// `s` with every reference dropped whose name occurred earlier.
pub open spec fn dedup_refs(s: Seq<Reference>) -> Seq<Reference>
    decreases s.len(),
{
    if s.len() == 0 {
        Seq::empty()
    } else {
        let prev = dedup_refs(s.drop_last());
        if ref_names(prev).contains(s.last().name@) {
            prev
        } else {
            prev.push(s.last())
        }
    }
}

/// The names of a sequence of bundles.
pub open spec fn bundle_names(s: Seq<Bundle>) -> Seq<Seq<char>> {
    s.map_values(|b: Bundle| b.name@)
}

/// `s` with every bundle dropped whose name occurred earlier.
pub open spec fn dedup_bundles(s: Seq<Bundle>) -> Seq<Bundle>
    decreases s.len(),
{
    if s.len() == 0 {
        Seq::empty()
    } else {
        let prev = dedup_bundles(s.drop_last());
        if bundle_names(prev).contains(s.last().name@) {
            prev
        } else {
            prev.push(s.last())
        }
    }
}

/// The name under which the local registry is known.
pub open spec fn local_name() -> Seq<char> {
    "local"@
}

/// Everything but the local registry's index is as it was.
pub open spec fn same_but_local_index(before: RepositoryStore, after: RepositoryStore) -> bool {
    &&& after.local_store().root_view() == before.local_store().root_view()
    &&& after.remote_seq() == before.remote_seq()
    &&& after.spec_config() == before.spec_config()
    &&& after.root_view() == before.root_view()
}

/// After a successful `add`: the local registry holds `r` under its name.
pub open spec fn added_reference(before: RepositoryStore, after: RepositoryStore, r: Reference) -> bool {
    &&& after.local_store().refs() == before.local_store().refs().insert(r.name@, r)
    &&& after.local_store().bundles() == before.local_store().bundles()
    &&& same_but_local_index(before, after)
}

/// After a successful `remove`: the local registry no longer holds `name`.
pub open spec fn removed_reference(before: RepositoryStore, after: RepositoryStore, name: Seq<char>) -> bool {
    &&& after.local_store().refs() == before.local_store().refs().remove(name)
    &&& after.local_store().bundles() == before.local_store().bundles()
    &&& same_but_local_index(before, after)
}

/// A reference as `update` leaves it: synced at `now`, and for a git source
/// with a known head, that head as its checksum.
pub open spec fn refreshed(r: Reference, now: Timestamp, head: Option<String>) -> Reference {
    Reference {
        name: r.name,
        kind: r.kind,
        source: r.source,
        description: r.description,
        tags: r.tags,
        added_at: r.added_at,
        last_synced: Some(now),
        checksum: if r.source is Git && head is Some {
            head
        } else {
            r.checksum
        },
    }
}

/// After a successful `add_bundle`: the local registry holds `b` under its name.
pub open spec fn added_bundle(before: RepositoryStore, after: RepositoryStore, b: Bundle) -> bool {
    &&& after.local_store().bundles() == before.local_store().bundles().insert(b.name@, b)
    &&& after.local_store().refs() == before.local_store().refs()
    &&& same_but_local_index(before, after)
}

/// The members of a bundle after adding each of `add` that is not yet a member.
pub open spec fn with_members(m: Seq<Seq<char>>, add: Seq<Seq<char>>) -> Seq<Seq<char>>
    decreases add.len(),
{
    if add.len() == 0 {
        m
    } else {
        let p = with_members(m, add.drop_last());
        if p.contains(add.last()) {
            p
        } else {
            p.push(add.last())
        }
    }
}

/// The members of a bundle, in order, that are not among `rem`.
pub open spec fn without_members(m: Seq<Seq<char>>, rem: Seq<Seq<char>>) -> Seq<Seq<char>>
    decreases m.len(),
{
    if m.len() == 0 {
        m
    } else {
        let p = without_members(m.drop_last(), rem);
        if rem.contains(m.last()) {
            p
        } else {
            p.push(m.last())
        }
    }
}

/// After a successful `update_bundle`: the bundle `name` has gained the new
/// members of `add`, then lost those of `rem`, and took `desc` when given.
pub open spec fn updated_bundle(
    before: RepositoryStore,
    after: RepositoryStore,
    name: Seq<char>,
    add: Seq<Seq<char>>,
    rem: Seq<Seq<char>>,
    desc: Option<String>,
) -> bool {
    let old_b = before.local_store().bundles()[name];
    let new_b = after.local_store().bundles()[name];
    &&& after.local_store().bundles().contains_key(name)
    &&& after.local_store().bundles().remove(name) == before.local_store().bundles().remove(name)
    &&& new_b.name == old_b.name
    &&& new_b.tags == old_b.tags
    &&& new_b.created_at == old_b.created_at
    &&& new_b.description == (if desc is Some { desc } else { old_b.description })
    &&& str_views(new_b.references@) == without_members(with_members(str_views(old_b.references@), add), rem)
    &&& after.local_store().refs() == before.local_store().refs()
    &&& same_but_local_index(before, after)
}

/// The names of configured registries.
pub open spec fn registry_names(s: Seq<Registry>) -> Seq<Seq<char>> {
    s.map_values(|r: Registry| r.name@)
}

/// The configured registries, in order, other than those named `name`.
pub open spec fn registries_without(s: Seq<Registry>, name: Seq<char>) -> Seq<Registry>
    decreases s.len(),
{
    if s.len() == 0 {
        s
    } else {
        let p = registries_without(s.drop_last(), name);
        if s.last().name@ == name {
            p
        } else {
            p.push(s.last())
        }
    }
}

/// After a successful `add_registry`: a registry `name` is attached and
/// recorded in the configuration with `url`.
pub open spec fn added_registry(
    before: RepositoryStore,
    after: RepositoryStore,
    name: Seq<char>,
    url: Seq<char>,
) -> bool {
    &&& after.remote_map().dom() == before.remote_map().dom().insert(name)
    &&& after.remote_map().remove(name) == before.remote_map().remove(name)
    &&& after.remote_map()[name].root_view() == crate::text::path_join(
        crate::text::path_join(before.root_view(), "registries"@),
        name,
    )
    &&& after.remote_map()[name].refs().len() == 0
    &&& after.remote_map()[name].bundles().len() == 0
    &&& after.spec_config().registries@.len() == before.spec_config().registries@.len() + 1
    &&& after.spec_config().registries@.drop_last() == before.spec_config().registries@
    &&& after.spec_config().registries@.last().name@ == name
    &&& after.spec_config().registries@.last().url@ == url
    &&& after.spec_config().git_depth == before.spec_config().git_depth
    &&& after.spec_config().mcp_scope == before.spec_config().mcp_scope
    &&& after.local_store() == before.local_store()
    &&& after.root_view() == before.root_view()
}

/// After a successful `remove_registry`: `name` is neither attached nor configured.
pub open spec fn removed_registry(before: RepositoryStore, after: RepositoryStore, name: Seq<char>) -> bool {
    &&& after.remote_map() == before.remote_map().remove(name)
    &&& after.spec_config().registries@ == registries_without(before.spec_config().registries@, name)
    &&& after.spec_config().git_depth == before.spec_config().git_depth
    &&& after.spec_config().mcp_scope == before.spec_config().mcp_scope
    &&& after.local_store() == before.local_store()
    &&& after.root_view() == before.root_view()
}

/// How a reference's content is brought into a registry.
#[derive(Debug)]
pub enum FetchPlan {
    /// Copy the local file or directory at `path`.
    CopyLocal { path: String },
    /// Run `git` with these arguments: a shallow clone into the content
    /// directory.  The clone keeps its `.git`, so that its head can be
    /// recorded and a later sync can see that a checkout is unchanged.
    Clone { args: Vec<String> },
}

/// A remote registry `name` may be added.
pub open spec fn registry_addable(repo: RepositoryStore, name: Seq<char>, present_on_disk: bool) -> bool {
    valid_name(name) && name != local_name() && !present_on_disk && !repo.remote_map().contains_key(name)
}

/// Which error refuses adding the remote registry `name`: an invalid name,
/// then the reserved name, then a registry already there.
pub open spec fn registry_refusal(
    repo: RepositoryStore,
    name: Seq<char>,
    present_on_disk: bool,
    r: Result<(), RefstoreError>,
) -> bool {
    &&& !valid_name(name) ==> (r matches Err(RefstoreError::InvalidName { name: n, .. }) && n@ == name)
    &&& valid_name(name) && name == local_name() ==> (r matches Err(RefstoreError::ReservedName { name: n }) && n@ == name)
    &&& valid_name(name) && name != local_name() && (present_on_disk || repo.remote_map().contains_key(name))
        ==> (r matches Err(RefstoreError::RegistryExists { name: n }) && n@ == name)
}

/// The store as a whole: one writable local registry at the root, the remote
/// registries in ascending name order, and the configuration.
pub struct RepositoryStore {
    root: String,
    local: RegistryStore,
    remotes: NameMap<RegistryStore>,
    config: GlobalConfig,
}

impl RepositoryStore {
    pub closed spec fn root_view(&self) -> Seq<char> {
        self.root@
    }

    pub closed spec fn local_store(&self) -> RegistryStore {
        self.local
    }

    /// The remotes in name order.
    pub closed spec fn remote_seq(&self) -> Seq<(Seq<char>, RegistryStore)> {
        self.remotes.seq()
    }

    pub closed spec fn remote_map(&self) -> Map<Seq<char>, RegistryStore> {
        self.remotes@
    }

    pub closed spec fn spec_config(&self) -> GlobalConfig {
        self.config
    }

    /// The local registry and every remote are well formed, the remotes
    /// stand in ascending name order, and the local registry is rooted at
    /// the store's root.
    pub open spec fn wf(&self) -> bool {
        &&& self.local_store().wf()
        &&& crate::namemap::names_sorted(self.remote_seq())
        &&& forall|i: int| 0 <= i < self.remote_seq().len() ==> (#[trigger] self.remote_seq()[i]).1.wf()
        &&& self.local_store().root_view() == self.root_view()
        &&& self.remote_map() == crate::namemap::map_of(self.remote_seq())
    }

    /// The registries in resolution order: local first, then the remotes.
    pub open spec fn regs(&self) -> Seq<RegistryStore> {
        seq![self.local_store()] + self.remote_seq().map_values(|e: (Seq<char>, RegistryStore)| e.1)
    }

    /// The registry names in resolution order.
    pub open spec fn reg_names(&self) -> Seq<Seq<char>> {
        seq![local_name()] + self.remote_seq().map_values(|e: (Seq<char>, RegistryStore)| e.0)
    }

    /// Registry `i` holds `name`, and no earlier one does.
    pub open spec fn first_holder(&self, name: Seq<char>, i: int) -> bool {
        &&& 0 <= i < self.regs().len()
        &&& self.regs()[i].refs().contains_key(name)
        &&& forall|j: int| 0 <= j < i ==> !(#[trigger] self.regs()[j]).refs().contains_key(name)
    }

    /// Some registry holds `name`.
    pub open spec fn resolves(&self, name: Seq<char>) -> bool {
        exists|i: int| 0 <= i < self.regs().len() && (#[trigger] self.regs()[i]).refs().contains_key(name)
    }

    /// The registry from which `name` resolves.
    pub open spec fn resolution(&self, name: Seq<char>) -> int {
        choose|i: int| self.first_holder(name, i)
    }

    /// The reference that `name` resolves to.
    pub open spec fn resolved(&self, name: Seq<char>) -> Reference {
        self.regs()[self.resolution(name)].refs()[name]
    }

    pub open spec fn first_bundle_holder(&self, name: Seq<char>, i: int) -> bool {
        &&& 0 <= i < self.regs().len()
        &&& self.regs()[i].bundles().contains_key(name)
        &&& forall|j: int| 0 <= j < i ==> !(#[trigger] self.regs()[j]).bundles().contains_key(name)
    }

    pub open spec fn bundle_resolves(&self, name: Seq<char>) -> bool {
        exists|i: int| 0 <= i < self.regs().len() && (#[trigger] self.regs()[i]).bundles().contains_key(name)
    }

    /// The bundle that `name` resolves to.
    pub open spec fn resolved_bundle(&self, name: Seq<char>) -> Bundle {
        self.regs()[choose|i: int| self.first_bundle_holder(name, i)].bundles()[name]
    }

    /// The filtered references of the first `k` registries, one registry after another.
    pub open spec fn hits(&self, k: int, tag: Option<Seq<char>>, kind: Option<Seq<char>>) -> Seq<Reference>
        decreases k,
    {
        if k <= 0 {
            Seq::empty()
        } else {
            self.hits(k - 1, tag, kind) + selected_refs(
                self.regs()[k - 1].spec_index().references.seq(),
                tag,
                kind,
            )
        }
    }

    /// What `list` yields: all registries' filtered references, the first of each name only.
    pub open spec fn listing(&self, tag: Option<Seq<char>>, kind: Option<Seq<char>>) -> Seq<Reference> {
        dedup_refs(self.hits(self.regs().len() as int, tag, kind))
    }

    pub open spec fn bundle_hits(&self, k: int, tag: Option<Seq<char>>) -> Seq<Bundle>
        decreases k,
    {
        if k <= 0 {
            Seq::empty()
        } else {
            self.bundle_hits(k - 1, tag) + selected_bundles(
                self.regs()[k - 1].spec_index().bundles.seq(),
                tag,
            )
        }
    }

    /// What `list_bundles` yields.
    pub open spec fn bundle_listing(&self, tag: Option<Seq<char>>) -> Seq<Bundle> {
        dedup_bundles(self.bundle_hits(self.regs().len() as int, tag))
    }

    pub proof fn lemma_first_holder_unique(&self, name: Seq<char>, i: int, j: int)
        requires
            self.first_holder(name, i),
            self.first_holder(name, j),
        ensures
            i == j,
    {
    }

    proof fn lemma_first_holder_from(&self, name: Seq<char>, k: int)
        requires
            0 <= k < self.regs().len(),
            self.regs()[k].refs().contains_key(name),
        ensures
            exists|i: int| self.first_holder(name, i),
        decreases k,
    {
        if exists|j: int| 0 <= j < k && (#[trigger] self.regs()[j]).refs().contains_key(name) {
            let j = choose|j: int| 0 <= j < k && (#[trigger] self.regs()[j]).refs().contains_key(name);
            self.lemma_first_holder_from(name, j);
        } else {
            assert(self.first_holder(name, k));
        }
    }

    /// A name that some registry holds resolves to the first registry holding it.
    pub proof fn lemma_resolution(&self, name: Seq<char>)
        requires
            self.resolves(name),
        ensures
            self.first_holder(name, self.resolution(name)),
    {
        let w = choose|i: int| 0 <= i < self.regs().len() && (#[trigger] self.regs()[i]).refs().contains_key(name);
        self.lemma_first_holder_from(name, w);
    }

    proof fn lemma_first_bundle_holder_from(&self, name: Seq<char>, k: int)
        requires
            0 <= k < self.regs().len(),
            self.regs()[k].bundles().contains_key(name),
        ensures
            exists|i: int| self.first_bundle_holder(name, i),
        decreases k,
    {
        if exists|j: int| 0 <= j < k && (#[trigger] self.regs()[j]).bundles().contains_key(name) {
            let j = choose|j: int| 0 <= j < k && (#[trigger] self.regs()[j]).bundles().contains_key(name);
            self.lemma_first_bundle_holder_from(name, j);
        } else {
            assert(self.first_bundle_holder(name, k));
        }
    }

    /// A store rooted at `root` whose local registry holds `local_index`,
    /// with no remotes attached yet.
    pub fn new(root: String, local_index: RepositoryIndex, config: GlobalConfig) -> (r: Self)
        requires
            local_index.wf(),
        ensures
            r.wf(),
            r.root_view() == root@,
            *r.local_store().spec_index() == local_index,
            r.local_store().root_view() == root@,
            r.remote_seq().len() == 0,
            r.spec_config() == config,
    {
        let local = RegistryStore::from_index(root.clone(), local_index);
        RepositoryStore { root, local, remotes: NameMap::new(), config }
    }

    /// Attaches a remote registry under `name`, unless one of that name is attached.
    pub fn attach_remote(&mut self, name: String, store: RegistryStore) -> (added: bool)
        requires
            old(self).wf(),
            store.wf(),
        ensures
            final(self).wf(),
            final(self).root_view() == old(self).root_view(),
            final(self).local_store() == old(self).local_store(),
            final(self).spec_config() == old(self).spec_config(),
            added == !old(self).remote_map().contains_key(name@),
            added ==> final(self).remote_map() == old(self).remote_map().insert(name@, store),
            !added ==> *final(self) == *old(self),
    {
        let ghost nm = name@;
        let added = self.remotes.insert(name, store);
        proof {
            assert forall|i: int| 0 <= i < self.remotes.seq().len() implies (#[trigger] self.remotes.seq()[i]).1.wf() by {
                self.remotes.lemma_index(i);
                let k = self.remotes.seq()[i].0;
                if added && k != nm {
                    let j = crate::namemap::index_of(old(self).remotes.seq(), k);
                    old(self).remotes.lemma_index(j);
                } else if !added {
                }
            }
        }
        added
    }

    pub fn root(&self) -> (r: &String)
        ensures
            r@ == self.root_view(),
    {
        &self.root
    }

    pub fn config(&self) -> (r: &GlobalConfig)
        ensures
            *r == self.spec_config(),
    {
        &self.config
    }

    /// Replaces the configuration.
    pub fn set_config(&mut self, config: GlobalConfig)
        requires
            old(self).wf(),
        ensures
            final(self).wf(),
            final(self).spec_config() == config,
            final(self).root_view() == old(self).root_view(),
            final(self).local_store() == old(self).local_store(),
            final(self).remote_seq() == old(self).remote_seq(),
    {
        self.config = config;
    }

    pub fn local_registry(&self) -> (r: &RegistryStore)
        ensures
            *r == self.local_store(),
    {
        &self.local
    }

    /// The number of remote registries.
    pub fn remote_count(&self) -> (r: usize)
        ensures
            r == self.remote_seq().len(),
    {
        self.remotes.len()
    }

    /// Remote `j` in name order, with its name; it is registry `j + 1` in resolution order.
    pub fn remote_at(&self, j: usize) -> (r: (&String, &RegistryStore))
        requires
            self.wf(),
            j < self.remote_seq().len(),
        ensures
            r.0@ == self.reg_names()[j + 1],
            *r.1 == self.regs()[j + 1],
            r.1.wf(),
    {
        (self.remotes.key_at(j), self.remotes.value_at(j))
    }

    /// Finds `name` in the local registry, then in the remotes in name order;
    /// the first registry holding it wins.
    pub fn resolve(&self, name: &str) -> (r: Option<ResolvedReference<'_>>)
        requires
            self.wf(),
        ensures
            r is None <==> !self.resolves(name@),
            r matches Some(x) ==> {
                &&& self.first_holder(name@, self.resolution(name@))
                &&& *x.reference == self.resolved(name@)
                &&& x.registry_name@ == self.reg_names()[self.resolution(name@)]
                &&& x.content_path@ == self.regs()[self.resolution(name@)].spec_content_path(name@)
            },
    {
        if let Some(r) = self.local.get(name) {
            proof {
                assert(self.regs()[0] == self.local_store());
                assert(self.first_holder(name@, 0));
                self.lemma_resolution(name@);
            }
            return Some(
                ResolvedReference {
                    reference: r,
                    content_path: self.local.content_path(name),
                    registry_name: String::from_str("local"),
                },
            );
        }
        let n = self.remotes.len();
        let mut j: usize = 0;
        while j < n
            invariant
                self.wf(),
                n == self.remote_seq().len(),
                j <= n,
                forall|k: int| 0 <= k <= j ==> !(#[trigger] self.regs()[k]).refs().contains_key(name@),
            decreases n - j,
        {
            let (rn, store) = self.remote_at(j);
            if let Some(r) = store.get(name) {
                proof {
                    assert(self.first_holder(name@, j + 1));
                    self.lemma_resolution(name@);
                }
                return Some(
                    ResolvedReference {
                        reference: r,
                        content_path: store.content_path(name),
                        registry_name: rn.clone(),
                    },
                );
            }
            j = j + 1;
        }
        None
    }

    /// The reference that `name` resolves to.
    pub fn get(&self, name: &str) -> (r: Option<&Reference>)
        requires
            self.wf(),
        ensures
            r is None <==> !self.resolves(name@),
            r matches Some(x) ==> *x == self.resolved(name@),
    {
        match self.resolve(name) {
            Some(x) => Some(x.reference),
            None => None,
        }
    }

    /// The content directory of the reference that `name` resolves to.
    pub fn resolve_content_path(&self, name: &str) -> (r: Option<String>)
        requires
            self.wf(),
        ensures
            r is None <==> !self.resolves(name@),
            r matches Some(p) ==> p@ == self.regs()[self.resolution(name@)].spec_content_path(name@),
    {
        match self.resolve(name) {
            Some(x) => Some(x.content_path),
            None => None,
        }
    }

    /// The content directory of `name` in the local registry.
    pub fn content_path(&self, name: &str) -> (r: String)
        ensures
            r@ == self.local_store().spec_content_path(name@),
    {
        self.local.content_path(name)
    }

    /// Finds a bundle by the same precedence as references.
    pub fn get_bundle(&self, name: &str) -> (r: Option<&Bundle>)
        requires
            self.wf(),
        ensures
            r is None <==> !self.bundle_resolves(name@),
            r matches Some(x) ==> *x == self.resolved_bundle(name@),
    {
        if let Some(b) = self.local.get_bundle(name) {
            proof {
                assert(self.regs()[0] == self.local_store());
                assert(self.first_bundle_holder(name@, 0));
                let i = choose|i: int| self.first_bundle_holder(name@, i);
                assert(i == 0);
            }
            return Some(b);
        }
        let n = self.remotes.len();
        let mut j: usize = 0;
        while j < n
            invariant
                self.wf(),
                n == self.remote_seq().len(),
                j <= n,
                forall|k: int| 0 <= k <= j ==> !(#[trigger] self.regs()[k]).bundles().contains_key(name@),
            decreases n - j,
        {
            let (_, store) = self.remote_at(j);
            if let Some(b) = store.get_bundle(name) {
                proof {
                    assert(self.first_bundle_holder(name@, j + 1));
                    let i = choose|i: int| self.first_bundle_holder(name@, i);
                    assert(i == j + 1);
                }
                return Some(b);
            }
            j = j + 1;
        }
        None
    }

    /// References from every registry that pass the filters: local hits
    /// first, then each remote's in name order, the first of each name only.
    pub fn list(&self, tag: Option<&str>, kind: Option<&str>) -> (r: Vec<&Reference>)
        requires
            self.wf(),
        ensures
            derefs(r@) == self.listing(opt_str(tag), opt_str(kind)),
    {
        let ghost t = opt_str(tag);
        let ghost k = opt_str(kind);
        let mut out: Vec<&Reference> = Vec::new();
        assert(self.regs()[0] == self.local_store());
        assert(self.hits(0, t, k) =~= Seq::<Reference>::empty());
        assert(derefs(out@) =~= dedup_refs(Seq::<Reference>::empty()));
        let first = self.local.list(tag, kind);
        push_new_refs(&mut out, first, Ghost(Seq::<Reference>::empty()));
        assert(Seq::<Reference>::empty() + derefs(first@) =~= self.hits(1, t, k));
        let n = self.remotes.len();
        let mut j: usize = 0;
        while j < n
            invariant
                self.wf(),
                n == self.remote_seq().len(),
                j <= n,
                t == opt_str(tag),
                k == opt_str(kind),
                derefs(out@) == dedup_refs(self.hits(j + 1, t, k)),
            decreases n - j,
        {
            let (_, store) = self.remote_at(j);
            let items = store.list(tag, kind);
            push_new_refs(&mut out, items, Ghost(self.hits(j + 1, t, k)));
            j = j + 1;
        }
        out
    }

    /// Bundles from every registry that carry `tag`, the first of each name only.
    pub fn list_bundles(&self, tag: Option<&str>) -> (r: Vec<&Bundle>)
        requires
            self.wf(),
        ensures
            derefs(r@) == self.bundle_listing(opt_str(tag)),
    {
        let ghost t = opt_str(tag);
        let mut out: Vec<&Bundle> = Vec::new();
        assert(self.regs()[0] == self.local_store());
        assert(self.bundle_hits(0, t) =~= Seq::<Bundle>::empty());
        assert(derefs(out@) =~= dedup_bundles(Seq::<Bundle>::empty()));
        let first = self.local.list_bundles(tag);
        push_new_bundles(&mut out, first, Ghost(Seq::<Bundle>::empty()));
        assert(Seq::<Bundle>::empty() + derefs(first@) =~= self.bundle_hits(1, t));
        let n = self.remotes.len();
        let mut j: usize = 0;
        while j < n
            invariant
                self.wf(),
                n == self.remote_seq().len(),
                j <= n,
                t == opt_str(tag),
                derefs(out@) == dedup_bundles(self.bundle_hits(j + 1, t)),
            decreases n - j,
        {
            let (_, store) = self.remote_at(j);
            let items = store.list_bundles(tag);
            push_new_bundles(&mut out, items, Ghost(self.bundle_hits(j + 1, t)));
            j = j + 1;
        }
        out
    }

    /// Adds a reference to the local registry: refused when the name is taken
    /// locally, then when it is not a valid name.  The caller fetches its
    /// content, saves the index and commits.
    pub fn add(&mut self, reference: Reference) -> (r: Result<(), RefstoreError>)
        requires
            old(self).wf(),
        ensures
            final(self).wf(),
            old(self).local_store().refs().contains_key(reference.name@) ==> r == Err::<(), RefstoreError>(
                RefstoreError::ReferenceExists { name: reference.name },
            ),
            !old(self).local_store().refs().contains_key(reference.name@) && !valid_name(reference.name@)
                ==> (r matches Err(RefstoreError::InvalidName { name: n, .. }) && n@ == reference.name@),
            r is Ok <==> !old(self).local_store().refs().contains_key(reference.name@) && valid_name(reference.name@),
            r is Ok ==> added_reference(*old(self), *final(self), reference),
            r is Err ==> *final(self) == *old(self),
    {
        if self.local.get(reference.name.as_str()).is_some() {
            return Err(RefstoreError::ReferenceExists { name: reference.name });
        }
        if let Err(e) = validate_name(reference.name.as_str()) {
            return Err(e);
        }
        self.local.insert_reference(reference);
        Ok(())
    }

    /// Takes a reference out of the local registry.  The caller deletes its
    /// content directory, saves the index and commits.
    pub fn remove(&mut self, name: &str) -> (r: Result<Reference, RefstoreError>)
        requires
            old(self).wf(),
        ensures
            final(self).wf(),
            r is Ok <==> old(self).local_store().refs().contains_key(name@),
            r matches Ok(x) ==> (x == old(self).local_store().refs()[name@]
                && removed_reference(*old(self), *final(self), name@)),
            r matches Err(e) ==> (e matches RefstoreError::ReferenceNotFound { name: n } && n@ == name@
                && *final(self) == *old(self)),
    {
        match self.local.remove_reference(name) {
            Some(x) => Ok(x),
            None => Err(RefstoreError::ReferenceNotFound { name: String::from_str(name) }),
        }
    }

    /// Records that the local reference `name` was fetched anew at `now`;
    /// `head` is the commit of a fresh clone, kept as the checksum of a git source.
    pub fn update(&mut self, name: &str, now: Timestamp, head: Option<String>) -> (r: Result<(), RefstoreError>)
        requires
            old(self).wf(),
        ensures
            final(self).wf(),
            r is Ok <==> old(self).local_store().refs().contains_key(name@),
            r is Ok ==> final(self).local_store().refs() == old(self).local_store().refs().insert(
                name@,
                refreshed(old(self).local_store().refs()[name@], now, head),
            ) && final(self).local_store().bundles() == old(self).local_store().bundles()
                && same_but_local_index(*old(self), *final(self)),
            r matches Err(e) ==> (e matches RefstoreError::ReferenceNotFound { name: n } && n@ == name@
                && *final(self) == *old(self)),
    {
        match self.local.remove_reference(name) {
            None => Err(RefstoreError::ReferenceNotFound { name: String::from_str(name) }),
            Some(x) => {
                let checksum = if x.source.is_git() && head.is_some() {
                    head
                } else {
                    x.checksum
                };
                let fresh = Reference {
                    name: x.name,
                    kind: x.kind,
                    source: x.source,
                    description: x.description,
                    tags: x.tags,
                    added_at: x.added_at,
                    last_synced: Some(now),
                    checksum,
                };
                self.local.insert_reference(fresh);
                assert(self.local_store().refs() =~= old(self).local_store().refs().insert(
                    name@,
                    refreshed(old(self).local_store().refs()[name@], now, head),
                ));
                Ok(())
            },
        }
    }

    /// Adds a bundle to the local registry: refused when the name is taken
    /// locally, when it is not a valid name, or when a member resolves nowhere
    /// (the first such member is reported).
    pub fn add_bundle(&mut self, bundle: Bundle) -> (r: Result<(), RefstoreError>)
        requires
            old(self).wf(),
        ensures
            final(self).wf(),
            old(self).local_store().bundles().contains_key(bundle.name@) ==> r == Err::<(), RefstoreError>(
                RefstoreError::BundleExists { name: bundle.name },
            ),
            !old(self).local_store().bundles().contains_key(bundle.name@) && !valid_name(bundle.name@)
                ==> (r matches Err(RefstoreError::InvalidName { name: n, .. }) && n@ == bundle.name@),
            r is Ok <==> {
                &&& !old(self).local_store().bundles().contains_key(bundle.name@)
                &&& valid_name(bundle.name@)
                &&& forall|i: int| 0 <= i < bundle.references@.len() ==> old(self).resolves(#[trigger] bundle.references@[i]@)
            },
            r matches Err(RefstoreError::BundleInvalidReference { bundle: b, reference: m }) ==> {
                &&& b@ == bundle.name@
                &&& !old(self).resolves(m@)
                &&& str_views(bundle.references@).contains(m@)
            },
            !old(self).local_store().bundles().contains_key(bundle.name@) && valid_name(bundle.name@)
                && !(forall|i: int| 0 <= i < bundle.references@.len() ==> old(self).resolves(#[trigger] bundle.references@[i]@))
                ==> (r matches Err(RefstoreError::BundleInvalidReference { bundle: b, reference: m })
                && b@ == bundle.name@ && !old(self).resolves(m@) && str_views(bundle.references@).contains(m@)),
            r is Ok ==> added_bundle(*old(self), *final(self), bundle),
            r is Err ==> *final(self) == *old(self),
    {
        if self.local.get_bundle(bundle.name.as_str()).is_some() {
            return Err(RefstoreError::BundleExists { name: bundle.name });
        }
        if let Err(e) = validate_name(bundle.name.as_str()) {
            return Err(e);
        }
        let n = bundle.references.len();
        let mut i: usize = 0;
        while i < n
            invariant
                self.wf(),
                n == bundle.references@.len(),
                i <= n,
                *self == *old(self),
                !old(self).local_store().bundles().contains_key(bundle.name@),
                valid_name(bundle.name@),
                forall|j: int| 0 <= j < i ==> self.resolves(#[trigger] bundle.references@[j]@),
            decreases n - i,
        {
            if self.get(bundle.references[i].as_str()).is_none() {
                assert(str_views(bundle.references@)[i as int] == bundle.references@[i as int]@);
                return Err(
                    RefstoreError::BundleInvalidReference {
                        bundle: bundle.name.clone(),
                        reference: bundle.references[i].clone(),
                    },
                );
            }
            i = i + 1;
        }
        self.local.insert_bundle(bundle);
        Ok(())
    }

    /// Takes a bundle out of the local registry.
    pub fn remove_bundle(&mut self, name: &str) -> (r: Result<Bundle, RefstoreError>)
        requires
            old(self).wf(),
        ensures
            final(self).wf(),
            r is Ok <==> old(self).local_store().bundles().contains_key(name@),
            r matches Ok(x) ==> {
                &&& x == old(self).local_store().bundles()[name@]
                &&& final(self).local_store().bundles() == old(self).local_store().bundles().remove(name@)
                &&& final(self).local_store().refs() == old(self).local_store().refs()
                &&& same_but_local_index(*old(self), *final(self))
            },
            r matches Err(e) ==> (e matches RefstoreError::BundleNotFound { name: n } && n@ == name@
                && *final(self) == *old(self)),
    {
        match self.local.remove_bundle(name) {
            Some(x) => Ok(x),
            None => Err(RefstoreError::BundleNotFound { name: String::from_str(name) }),
        }
    }

    /// Adds the members of `add_refs` that are not yet members, in order,
    /// then drops every member named in `remove_refs`, and replaces the
    /// description when one is given.  Every added name must resolve
    /// somewhere; the bundle must be local.
    pub fn update_bundle(
        &mut self,
        name: &str,
        add_refs: Vec<String>,
        remove_refs: Vec<String>,
        description: Option<String>,
    ) -> (r: Result<(), RefstoreError>)
        requires
            old(self).wf(),
        ensures
            final(self).wf(),
            r is Ok <==> {
                &&& forall|i: int| 0 <= i < add_refs@.len() ==> old(self).resolves(#[trigger] add_refs@[i]@)
                &&& old(self).local_store().bundles().contains_key(name@)
            },
            !(forall|i: int| 0 <= i < add_refs@.len() ==> old(self).resolves(#[trigger] add_refs@[i]@))
                ==> (r matches Err(RefstoreError::BundleInvalidReference { bundle: b, reference: m })
                && b@ == name@ && !old(self).resolves(m@) && str_views(add_refs@).contains(m@)),
            (forall|i: int| 0 <= i < add_refs@.len() ==> old(self).resolves(#[trigger] add_refs@[i]@))
                && !old(self).local_store().bundles().contains_key(name@)
                ==> (r matches Err(RefstoreError::BundleNotFound { name: n }) && n@ == name@),
            r is Ok ==> updated_bundle(
                *old(self),
                *final(self),
                name@,
                str_views(add_refs@),
                str_views(remove_refs@),
                description,
            ),
            r is Err ==> *final(self) == *old(self),
    {
        let n = add_refs.len();
        let mut i: usize = 0;
        while i < n
            invariant
                self.wf(),
                n == add_refs@.len(),
                i <= n,
                *self == *old(self),
                forall|j: int| 0 <= j < i ==> self.resolves(#[trigger] add_refs@[j]@),
            decreases n - i,
        {
            if self.get(add_refs[i].as_str()).is_none() {
                assert(str_views(add_refs@)[i as int] == add_refs@[i as int]@);
                return Err(
                    RefstoreError::BundleInvalidReference {
                        bundle: String::from_str(name),
                        reference: add_refs[i].clone(),
                    },
                );
            }
            i = i + 1;
        }
        let b = match self.local.remove_bundle(name) {
            Some(b) => b,
            None => {
                return Err(RefstoreError::BundleNotFound { name: String::from_str(name) });
            },
        };
        let ghost old_members = str_views(b.references@);
        let ghost adds = str_views(add_refs@);
        let ghost rems = str_views(remove_refs@);
        let mut members = b.references;
        let mut k: usize = 0;
        assert(adds.subrange(0, 0) =~= Seq::<Seq<char>>::empty());
        while k < n
            invariant
                n == add_refs@.len(),
                adds == str_views(add_refs@),
                k <= n,
                str_views(members@) == with_members(old_members, adds.subrange(0, k as int)),
            decreases n - k,
        {
            assert(adds.subrange(0, k as int + 1).drop_last() =~= adds.subrange(0, k as int));
            if !contains_str(&members, add_refs[k].as_str()) {
                members.push(add_refs[k].clone());
                assert(str_views(members@) =~= with_members(old_members, adds.subrange(0, k as int + 1)));
            }
            k = k + 1;
        }
        assert(adds.subrange(0, n as int) =~= adds);
        let ghost added = str_views(members@);
        let mut kept: Vec<String> = Vec::new();
        let m = members.len();
        let mut j: usize = 0;
        while j < m
            invariant
                m == members@.len(),
                added == str_views(members@),
                rems == str_views(remove_refs@),
                j <= m,
                str_views(kept@) == without_members(added.subrange(0, j as int), rems),
            decreases m - j,
        {
            assert(added.subrange(0, j as int + 1).drop_last() =~= added.subrange(0, j as int));
            if !contains_str(&remove_refs, members[j].as_str()) {
                kept.push(members[j].clone());
                assert(str_views(kept@) =~= without_members(added.subrange(0, j as int + 1), rems));
            }
            j = j + 1;
        }
        assert(added.subrange(0, m as int) =~= added);
        let new_description = match description {
            Some(d) => Some(d),
            None => b.description,
        };
        let nb = Bundle {
            name: b.name,
            description: new_description,
            tags: b.tags,
            references: kept,
            created_at: b.created_at,
        };
        self.local.insert_bundle(nb);
        assert(self.local_store().bundles().remove(name@) =~= old(self).local_store().bundles().remove(name@));
        Ok(())
    }

    /// Whether a remote registry `name` may be added; `present_on_disk` tells
    /// whether its directory exists already.  Refused: an invalid name; the
    /// reserved name `local`; a registry already there.
    pub fn check_add_registry(&self, name: &str, present_on_disk: bool) -> (r: Result<(), RefstoreError>)
        requires
            self.wf(),
        ensures
            r is Ok <==> registry_addable(*self, name@, present_on_disk),
            registry_refusal(*self, name@, present_on_disk, r),
    {
        if let Err(e) = validate_name(name) {
            return Err(e);
        }
        if str_eq(name, "local") {
            return Err(RefstoreError::ReservedName { name: String::from_str(name) });
        }
        if present_on_disk || self.remotes.contains(name) {
            return Err(RefstoreError::RegistryExists { name: String::from_str(name) });
        }
        Ok(())
    }

    /// Attaches an empty remote registry `name` under `registries/<name>` and
    /// records it with `url` in the configuration, once `check_add_registry`
    /// allows it.  The caller adds the submodule, commits, reloads the
    /// registry from disk and saves the configuration.
    pub fn add_registry(&mut self, name: &str, url: &str, present_on_disk: bool) -> (r: Result<(), RefstoreError>)
        requires
            old(self).wf(),
        ensures
            final(self).wf(),
            r is Ok <==> registry_addable(*old(self), name@, present_on_disk),
            registry_refusal(*old(self), name@, present_on_disk, r),
            r is Ok ==> added_registry(*old(self), *final(self), name@, url@),
            r is Err ==> *final(self) == *old(self),
    {
        self.check_add_registry(name, present_on_disk)?;
        let dir = join_path(self.root.as_str(), "registries");
        let path = join_path(dir.as_str(), name);
        let store = RegistryStore::from_index(path, RepositoryIndex::new());
        let ghost before = *self;
        let attached = self.attach_remote(String::from_str(name), store);
        assert(attached);
        proof {
            assert(self.remote_map().dom() =~= before.remote_map().dom().insert(name@));
            assert(self.remote_map().remove(name@) =~= before.remote_map().remove(name@));
        }
        self.config.registries.push(Registry { name: String::from_str(name), url: String::from_str(url) });
        assert(self.spec_config().registries@.drop_last() =~= old(self).spec_config().registries@);
        Ok(())
    }

    /// Replaces the contents of the attached remote `name`, as after pulling it.
    pub fn reload_registry(&mut self, name: &str, store: RegistryStore) -> (replaced: bool)
        requires
            old(self).wf(),
            store.wf(),
        ensures
            final(self).wf(),
            replaced == old(self).remote_map().contains_key(name@),
            replaced ==> final(self).remote_map() == old(self).remote_map().insert(name@, store),
            !replaced ==> *final(self) == *old(self),
            final(self).local_store() == old(self).local_store(),
            final(self).spec_config() == old(self).spec_config(),
            final(self).root_view() == old(self).root_view(),
    {
        let ghost before = *self;
        match self.remotes.remove(name) {
            None => false,
            Some(_) => {
                proof {
                    assert forall|i: int| 0 <= i < self.remotes.seq().len() implies (#[trigger] self.remotes.seq()[i]).1.wf() by {
                        self.remotes.lemma_index(i);
                        let k = self.remotes.seq()[i].0;
                        let j = crate::namemap::index_of(before.remotes.seq(), k);
                        before.remotes.lemma_index(j);
                    }
                }
                self.attach_remote(String::from_str(name), store);
                assert(self.remote_map() =~= before.remote_map().insert(name@, store));
                true
            },
        }
    }

    /// Detaches every remote, as before reloading them all from disk.
    pub fn clear_remotes(&mut self)
        requires
            old(self).wf(),
        ensures
            final(self).wf(),
            final(self).remote_seq().len() == 0,
            final(self).local_store() == old(self).local_store(),
            final(self).spec_config() == old(self).spec_config(),
            final(self).root_view() == old(self).root_view(),
    {
        self.remotes = NameMap::new();
    }

    /// Detaches the remote `name` and drops it from the configuration;
    /// refused when its directory is not there.  The caller removes the
    /// submodule, commits and saves the configuration.
    pub fn remove_registry(&mut self, name: &str, present_on_disk: bool) -> (r: Result<(), RefstoreError>)
        requires
            old(self).wf(),
        ensures
            final(self).wf(),
            r is Ok <==> present_on_disk,
            r matches Err(e) ==> (e matches RefstoreError::RegistryNotFound { name: n } && n@ == name@
                && *final(self) == *old(self)),
            r is Ok ==> removed_registry(*old(self), *final(self), name@),
    {
        if !present_on_disk {
            return Err(RefstoreError::RegistryNotFound { name: String::from_str(name) });
        }
        let ghost before = *self;
        let _ = self.remotes.remove(name);
        proof {
            assert forall|i: int| 0 <= i < self.remotes.seq().len() implies (#[trigger] self.remotes.seq()[i]).1.wf() by {
                self.remotes.lemma_index(i);
                let k = self.remotes.seq()[i].0;
                let j = crate::namemap::index_of(before.remotes.seq(), k);
                before.remotes.lemma_index(j);
            }
        }
        let regs = &self.config.registries;
        let mut kept: Vec<Registry> = Vec::new();
        let n = regs.len();
        let mut i: usize = 0;
        while i < n
            invariant
                n == regs@.len(),
                regs@ == before.spec_config().registries@,
                i <= n,
                kept@ == registries_without(regs@.subrange(0, i as int), name@),
            decreases n - i,
        {
            assert(regs@.subrange(0, i as int + 1).drop_last() =~= regs@.subrange(0, i as int));
            if !str_eq(regs[i].name.as_str(), name) {
                kept.push(Registry { name: regs[i].name.clone(), url: regs[i].url.clone() });
            }
            i = i + 1;
        }
        assert(regs@.subrange(0, n as int) =~= regs@);
        self.config.registries = kept;
        Ok(())
    }

    /// Copies the local reference `name` into `target`'s index; refused when
    /// it is not local or `target` has it already.  The caller copies its
    /// content directory and saves `target`'s index.
    pub fn push_to(&self, name: &str, target: &mut RegistryStore) -> (r: Result<(), RefstoreError>)
        requires
            self.wf(),
            old(target).wf(),
        ensures
            final(target).wf(),
            r is Ok <==> self.local_store().refs().contains_key(name@) && !old(target).refs().contains_key(name@),
            !self.local_store().refs().contains_key(name@) ==> (r matches Err(RefstoreError::ReferenceNotFound { name: n }) && n@ == name@),
            self.local_store().refs().contains_key(name@) && old(target).refs().contains_key(name@)
                ==> (r matches Err(RefstoreError::ReferenceExists { name: n }) && n@ == name@),
            r is Ok ==> {
                &&& final(target).refs().dom() == old(target).refs().dom().insert(name@)
                &&& final(target).refs()[name@].same_as(self.local_store().refs()[name@])
                &&& final(target).refs().remove(name@) == old(target).refs().remove(name@)
                &&& final(target).bundles() == old(target).bundles()
                &&& final(target).root_view() == old(target).root_view()
            },
            r is Err ==> *final(target) == *old(target),
    {
        let reference = match self.local.get(name) {
            Some(x) => x,
            None => {
                return Err(RefstoreError::ReferenceNotFound { name: String::from_str(name) });
            },
        };
        if target.get(name).is_some() {
            return Err(RefstoreError::ReferenceExists { name: String::from_str(name) });
        }
        let copy = reference.duplicate();
        target.insert_reference(copy);
        assert(target.refs().dom() =~= old(target).refs().dom().insert(name@));
        assert(target.refs().remove(name@) =~= old(target).refs().remove(name@));
        Ok(())
    }

    /// How to fetch `reference` into `content_dir`: a copy of a local
    /// source, or a shallow clone of a git source at the configured depth;
    /// a remote source is refused as not supported.
    pub fn fetch_plan(&self, reference: &Reference, content_dir: &str) -> (r: Result<FetchPlan, RefstoreError>)
        ensures
            match reference.source {
                ReferenceSource::Local { path } => r matches Ok(FetchPlan::CopyLocal { path: p }) && p == path,
                ReferenceSource::Git { url, git_ref, .. } => r matches Ok(FetchPlan::Clone { args })
                    && str_views(args@) == clone_argv(url@, content_dir@, opt_string(git_ref), self.spec_config().git_depth),
                ReferenceSource::Remote { url } => r matches Err(RefstoreError::SyncFailed { name, reason })
                    && name == reference.name && reason@ == "remote sources not yet supported: "@ + url@,
            },
    {
        match &reference.source {
            ReferenceSource::Local { path } => Ok(FetchPlan::CopyLocal { path: path.clone() }),
            ReferenceSource::Git { url, git_ref, .. } => {
                let r = match git_ref {
                    Some(g) => Some(g.as_str()),
                    None => None,
                };
                Ok(FetchPlan::Clone { args: clone_args(url.as_str(), content_dir, r, self.config.git_depth) })
            },
            ReferenceSource::Remote { url } => {
                let mut reason = String::from_str("remote sources not yet supported: ");
                reason.append(url.as_str());
                Err(RefstoreError::SyncFailed { name: reference.name.clone(), reason })
            },
        }
    }
}

fn has_ref_name(out: &Vec<&Reference>, name: &String) -> (r: bool)
    ensures
        r == ref_names(derefs(out@)).contains(name@),
{
    let mut i: usize = 0;
    while i < out.len()
        invariant
            i <= out@.len(),
            forall|j: int| 0 <= j < i ==> out@[j].name@ != name@,
        decreases out@.len() - i,
    {
        if out[i].name == *name {
            assert(ref_names(derefs(out@))[i as int] == name@);
            return true;
        }
        i = i + 1;
    }
    proof {
        if ref_names(derefs(out@)).contains(name@) {
            let j = choose|j: int| 0 <= j < ref_names(derefs(out@)).len() && ref_names(derefs(out@))[j] == name@;
            assert(out@[j].name@ == name@);
        }
    }
    false
}

fn push_new_refs<'a>(out: &mut Vec<&'a Reference>, items: Vec<&'a Reference>, prev: Ghost<Seq<Reference>>)
    requires
        derefs(old(out)@) == dedup_refs(prev@),
    ensures
        derefs(final(out)@) == dedup_refs(prev@ + derefs(items@)),
{
    let mut i: usize = 0;
    while i < items.len()
        invariant
            i <= items@.len(),
            derefs(out@) == dedup_refs(prev@ + derefs(items@).subrange(0, i as int)),
        decreases items@.len() - i,
    {
        let x = items[i];
        let ghost s = prev@ + derefs(items@).subrange(0, i as int + 1);
        assert(s.drop_last() =~= prev@ + derefs(items@).subrange(0, i as int));
        assert(s.last() == *x);
        if !has_ref_name(out, &x.name) {
            out.push(x);
            assert(derefs(out@) =~= dedup_refs(s));
        }
        i = i + 1;
    }
    assert(derefs(items@).subrange(0, items@.len() as int) =~= derefs(items@));
}

fn has_bundle_name(out: &Vec<&Bundle>, name: &String) -> (r: bool)
    ensures
        r == bundle_names(derefs(out@)).contains(name@),
{
    let mut i: usize = 0;
    while i < out.len()
        invariant
            i <= out@.len(),
            forall|j: int| 0 <= j < i ==> out@[j].name@ != name@,
        decreases out@.len() - i,
    {
        if out[i].name == *name {
            assert(bundle_names(derefs(out@))[i as int] == name@);
            return true;
        }
        i = i + 1;
    }
    proof {
        if bundle_names(derefs(out@)).contains(name@) {
            let j = choose|j: int| 0 <= j < bundle_names(derefs(out@)).len() && bundle_names(derefs(out@))[j] == name@;
            assert(out@[j].name@ == name@);
        }
    }
    false
}

fn push_new_bundles<'a>(out: &mut Vec<&'a Bundle>, items: Vec<&'a Bundle>, prev: Ghost<Seq<Bundle>>)
    requires
        derefs(old(out)@) == dedup_bundles(prev@),
    ensures
        derefs(final(out)@) == dedup_bundles(prev@ + derefs(items@)),
{
    let mut i: usize = 0;
    while i < items.len()
        invariant
            i <= items@.len(),
            derefs(out@) == dedup_bundles(prev@ + derefs(items@).subrange(0, i as int)),
        decreases items@.len() - i,
    {
        let x = items[i];
        let ghost s = prev@ + derefs(items@).subrange(0, i as int + 1);
        assert(s.drop_last() =~= prev@ + derefs(items@).subrange(0, i as int));
        assert(s.last() == *x);
        if !has_bundle_name(out, &x.name) {
            out.push(x);
            assert(derefs(out@) =~= dedup_bundles(s));
        }
        i = i + 1;
    }
    assert(derefs(items@).subrange(0, items@.len() as int) =~= derefs(items@));
}

} // verus!

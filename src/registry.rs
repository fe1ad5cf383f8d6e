use vstd::prelude::*;

use crate::model::{kind_name, Bundle, Reference, RepositoryIndex};
use crate::text::{contains_str, join_path, opt_str, path_join, str_eq, str_views};

verus! {

/// A reference passes the optional tag filter (it carries the tag) and the
/// optional kind filter (its kind is written as given).
pub open spec fn ref_selected(r: Reference, tag: Option<Seq<char>>, kind: Option<Seq<char>>) -> bool {
    &&& (tag matches Some(t) ==> str_views(r.tags@).contains(t))
    &&& (kind matches Some(k) ==> kind_name(r.kind) == k)
}

/// The references of `s`, in order, that pass the filters.
pub open spec fn selected_refs(
    s: Seq<(Seq<char>, Reference)>,
    tag: Option<Seq<char>>,
    kind: Option<Seq<char>>,
) -> Seq<Reference>
    decreases s.len(),
{
    if s.len() == 0 {
        Seq::empty()
    } else {
        let prev = selected_refs(s.drop_last(), tag, kind);
        if ref_selected(s.last().1, tag, kind) {
            prev.push(s.last().1)
        } else {
            prev
        }
    }
}

/// A bundle passes the optional tag filter.
pub open spec fn bundle_selected(b: Bundle, tag: Option<Seq<char>>) -> bool {
    tag matches Some(t) ==> str_views(b.tags@).contains(t)
}

/// The bundles of `s`, in order, that pass the tag filter.
pub open spec fn selected_bundles(s: Seq<(Seq<char>, Bundle)>, tag: Option<Seq<char>>) -> Seq<
    Bundle,
>
    decreases s.len(),
{
    if s.len() == 0 {
        Seq::empty()
    } else {
        let prev = selected_bundles(s.drop_last(), tag);
        if bundle_selected(s.last().1, tag) {
            prev.push(s.last().1)
        } else {
            prev
        }
    }
}

/// The values behind a sequence of references.
pub open spec fn derefs<T>(s: Seq<&T>) -> Seq<T> {
    s.map_values(|x: &T| *x)
}

/// Every listed reference passes the filters and is listed without them too.
pub proof fn lemma_selected_refs_subset(
    s: Seq<(Seq<char>, Reference)>,
    tag: Option<Seq<char>>,
    kind: Option<Seq<char>>,
)
    ensures
        forall|i: int|
            0 <= i < selected_refs(s, tag, kind).len() ==> ref_selected(
                #[trigger] selected_refs(s, tag, kind)[i],
                tag,
                kind,
            ) && selected_refs(s, None, None).contains(selected_refs(s, tag, kind)[i]),
    decreases s.len(),
{
    if s.len() > 0 {
        lemma_selected_refs_subset(s.drop_last(), tag, kind);
        let prev = selected_refs(s.drop_last(), tag, kind);
        let all_prev = selected_refs(s.drop_last(), None, None);
        let all = selected_refs(s, None, None);
        assert(all == all_prev.push(s.last().1));
        assert forall|i: int| 0 <= i < selected_refs(s, tag, kind).len() implies ref_selected(
            #[trigger] selected_refs(s, tag, kind)[i],
            tag,
            kind,
        ) && all.contains(selected_refs(s, tag, kind)[i]) by {
            if i < prev.len() {
                assert(selected_refs(s, tag, kind)[i] == prev[i]);
                let j = choose|j: int| 0 <= j < all_prev.len() && all_prev[j] == prev[i];
                assert(all[j] == prev[i]);
            } else {
                assert(all[all.len() - 1] == s.last().1);
            }
        }
    }
}

/// One registry: a root directory with an index of references and bundles
/// and the content of each reference under `content/<name>`.
pub struct RegistryStore {
    root: String,
    index: RepositoryIndex,
}

impl RegistryStore {
    pub closed spec fn root_view(&self) -> Seq<char> {
        self.root@
    }

    pub closed spec fn spec_index(&self) -> &RepositoryIndex {
        &self.index
    }

    pub open spec fn wf(&self) -> bool {
        self.spec_index().wf()
    }

    /// The references by name.
    pub open spec fn refs(&self) -> Map<Seq<char>, Reference> {
        self.spec_index().references@
    }

    /// The bundles by name.
    pub open spec fn bundles(&self) -> Map<Seq<char>, Bundle> {
        self.spec_index().bundles@
    }

    /// Where the content of `name` lives in this registry.
    pub open spec fn spec_content_path(&self, name: Seq<char>) -> Seq<char> {
        path_join(path_join(self.root_view(), "content"@), name)
    }

    /// A registry at `root` holding `index`.
    pub fn from_index(root: String, index: RepositoryIndex) -> (r: Self)
        requires
            index.wf(),
        ensures
            r.wf(),
            r.root_view() == root@,
            *r.spec_index() == index,
    {
        RegistryStore { root, index }
    }

    pub fn root(&self) -> (r: &String)
        ensures
            r@ == self.root_view(),
    {
        &self.root
    }

    pub fn index(&self) -> (r: &RepositoryIndex)
        ensures
            *r == *self.spec_index(),
    {
        &self.index
    }

    pub fn content_path(&self, name: &str) -> (r: String)
        ensures
            r@ == self.spec_content_path(name@),
    {
        let content = join_path(self.root.as_str(), "content");
        join_path(content.as_str(), name)
    }

    pub fn get(&self, name: &str) -> (r: Option<&Reference>)
        requires
            self.wf(),
        ensures
            match r {
                Some(x) => self.refs().contains_key(name@) && *x == self.refs()[name@],
                None => !self.refs().contains_key(name@),
            },
    {
        self.index.references.get(name)
    }

    pub fn get_bundle(&self, name: &str) -> (r: Option<&Bundle>)
        requires
            self.wf(),
        ensures
            match r {
                Some(x) => self.bundles().contains_key(name@) && *x == self.bundles()[name@],
                None => !self.bundles().contains_key(name@),
            },
    {
        self.index.bundles.get(name)
    }

    /// The references in name order that carry `tag` (when given) and are of
    /// the kind written `kind` (when given).
    pub fn list(&self, tag: Option<&str>, kind: Option<&str>) -> (r: Vec<&Reference>)
        requires
            self.wf(),
        ensures
            derefs(r@) == selected_refs(self.spec_index().references.seq(), opt_str(tag), opt_str(kind)),
    {
        let ghost s = self.index.references.seq();
        let mut out: Vec<&Reference> = Vec::new();
        let n = self.index.references.len();
        let mut i: usize = 0;
        while i < n
            invariant
                n == s.len(),
                s == self.spec_index().references.seq(),
                i <= n,
                derefs(out@) == selected_refs(s.subrange(0, i as int), opt_str(tag), opt_str(kind)),
            decreases n - i,
        {
            let r = self.index.references.value_at(i);
            let tag_ok = match tag {
                Some(t) => contains_str(&r.tags, t),
                None => true,
            };
            let kind_ok = match kind {
                Some(k) => str_eq(r.kind.as_str(), k),
                None => true,
            };
            let ghost before = derefs(out@);
            if tag_ok && kind_ok {
                out.push(r);
            }
            assert(s.subrange(0, i as int + 1).drop_last() =~= s.subrange(0, i as int));
            assert(derefs(out@) =~= selected_refs(s.subrange(0, i as int + 1), opt_str(tag), opt_str(kind)));
            i = i + 1;
        }
        assert(s.subrange(0, n as int) =~= s);
        out
    }

    /// The bundles in name order that carry `tag` (when given).
    pub fn list_bundles(&self, tag: Option<&str>) -> (r: Vec<&Bundle>)
        requires
            self.wf(),
        ensures
            derefs(r@) == selected_bundles(self.spec_index().bundles.seq(), opt_str(tag)),
    {
        let ghost s = self.index.bundles.seq();
        let mut out: Vec<&Bundle> = Vec::new();
        let n = self.index.bundles.len();
        let mut i: usize = 0;
        while i < n
            invariant
                n == s.len(),
                s == self.spec_index().bundles.seq(),
                i <= n,
                derefs(out@) == selected_bundles(s.subrange(0, i as int), opt_str(tag)),
            decreases n - i,
        {
            let b = self.index.bundles.value_at(i);
            let tag_ok = match tag {
                Some(t) => contains_str(&b.tags, t),
                None => true,
            };
            if tag_ok {
                out.push(b);
            }
            assert(s.subrange(0, i as int + 1).drop_last() =~= s.subrange(0, i as int));
            assert(derefs(out@) =~= selected_bundles(s.subrange(0, i as int + 1), opt_str(tag)));
            i = i + 1;
        }
        assert(s.subrange(0, n as int) =~= s);
        out
    }

    /// Adds a reference under its own name unless that name is taken.
    pub fn insert_reference(&mut self, r: Reference) -> (added: bool)
        requires
            old(self).wf(),
        ensures
            final(self).wf(),
            final(self).root_view() == old(self).root_view(),
            final(self).bundles() == old(self).bundles(),
            added == !old(self).refs().contains_key(r.name@),
            added ==> final(self).refs() == old(self).refs().insert(r.name@, r),
            !added ==> *final(self) == *old(self),
    {
        let name = r.name.clone();
        self.index.references.insert(name, r)
    }

    /// Takes a reference out of the index.
    pub fn remove_reference(&mut self, name: &str) -> (r: Option<Reference>)
        requires
            old(self).wf(),
        ensures
            final(self).wf(),
            final(self).root_view() == old(self).root_view(),
            final(self).bundles() == old(self).bundles(),
            final(self).refs() == old(self).refs().remove(name@),
            match r {
                Some(x) => old(self).refs().contains_key(name@) && x == old(self).refs()[name@],
                None => !old(self).refs().contains_key(name@) && *final(self) == *old(self),
            },
    {
        self.index.references.remove(name)
    }

    /// Adds a bundle under its own name unless that name is taken.
    pub fn insert_bundle(&mut self, b: Bundle) -> (added: bool)
        requires
            old(self).wf(),
        ensures
            final(self).wf(),
            final(self).root_view() == old(self).root_view(),
            final(self).refs() == old(self).refs(),
            added == !old(self).bundles().contains_key(b.name@),
            added ==> final(self).bundles() == old(self).bundles().insert(b.name@, b),
            !added ==> *final(self) == *old(self),
    {
        let name = b.name.clone();
        self.index.bundles.insert(name, b)
    }

    /// Takes a bundle out of the index.
    pub fn remove_bundle(&mut self, name: &str) -> (r: Option<Bundle>)
        requires
            old(self).wf(),
        ensures
            final(self).wf(),
            final(self).root_view() == old(self).root_view(),
            final(self).refs() == old(self).refs(),
            final(self).bundles() == old(self).bundles().remove(name@),
            match r {
                Some(x) => old(self).bundles().contains_key(name@) && x == old(self).bundles()[name@],
                None => !old(self).bundles().contains_key(name@) && *final(self) == *old(self),
            },
    {
        self.index.bundles.remove(name)
    }
}

} // verus!

use vstd::prelude::*;

use crate::model::{Bundle, Reference, Registry};
use crate::registry::{lemma_selected_refs_subset, selected_refs, RegistryStore};
use crate::repository::{
    added_bundle, added_reference, added_registry, dedup_refs, local_name, ref_names,
    registries_without, registry_names, removed_reference, removed_registry, updated_bundle,
    with_members, without_members, RepositoryStore,
};
use crate::text::{path_join, str_views};

verus! {

/// `idx` places each element of `a` in `b`, in increasing positions.
pub open spec fn subsequence_at<T>(a: Seq<T>, b: Seq<T>, idx: Seq<int>) -> bool {
    &&& idx.len() == a.len()
    &&& forall|i: int| 0 <= i < a.len() ==> 0 <= #[trigger] idx[i] < b.len() && b[idx[i]] == a[i]
    &&& forall|i: int, j: int| 0 <= i < j < a.len() ==> idx[i] < idx[j]
}

/// `a` is `b` with some elements left out, the rest in their order.
pub open spec fn is_subsequence<T>(a: Seq<T>, b: Seq<T>) -> bool {
    exists|idx: Seq<int>| subsequence_at(a, b, idx)
}

proof fn lemma_selected_subsequence(s: Seq<(Seq<char>, Reference)>, tag: Option<Seq<char>>, kind: Option<Seq<char>>)
    ensures
        is_subsequence(selected_refs(s, tag, kind), selected_refs(s, None, None)),
    decreases s.len(),
{
    if s.len() == 0 {
        assert(subsequence_at(selected_refs(s, tag, kind), selected_refs(s, None, None), Seq::<int>::empty()));
    } else {
        lemma_selected_subsequence(s.drop_last(), tag, kind);
        let pa = selected_refs(s.drop_last(), tag, kind);
        let pb = selected_refs(s.drop_last(), None, None);
        let idx = choose|idx: Seq<int>| subsequence_at(pa, pb, idx);
        let a = selected_refs(s, tag, kind);
        let b = selected_refs(s, None, None);
        assert(b == pb.push(s.last().1));
        if crate::registry::ref_selected(s.last().1, tag, kind) {
            let idx2 = idx.push(pb.len() as int);
            assert(subsequence_at(a, b, idx2));
        } else {
            assert(subsequence_at(a, b, idx));
        }
    }
}

/// A registry's filtered listing holds only references that pass the
/// filters; it is its unfiltered listing with some references left out.
pub proof fn law_registry_list_filtered(
    reg: RegistryStore,
    tag: Option<Seq<char>>,
    kind: Option<Seq<char>>,
)
    ensures
        forall|i: int|
            0 <= i < selected_refs(reg.spec_index().references.seq(), tag, kind).len()
                ==> crate::registry::ref_selected(
                #[trigger] selected_refs(reg.spec_index().references.seq(), tag, kind)[i],
                tag,
                kind,
            ) && selected_refs(reg.spec_index().references.seq(), None, None).contains(
                selected_refs(reg.spec_index().references.seq(), tag, kind)[i],
            ),
        is_subsequence(
            selected_refs(reg.spec_index().references.seq(), tag, kind),
            selected_refs(reg.spec_index().references.seq(), None, None),
        ),
{
    lemma_selected_refs_subset(reg.spec_index().references.seq(), tag, kind);
    lemma_selected_subsequence(reg.spec_index().references.seq(), tag, kind);
}

proof fn lemma_dedup_refs_unique(s: Seq<Reference>)
    ensures
        forall|i: int, j: int|
            0 <= i < j < dedup_refs(s).len() ==> (#[trigger] dedup_refs(s)[i]).name@ != (
            #[trigger] dedup_refs(s)[j]).name@,
    decreases s.len(),
{
    if s.len() > 0 {
        lemma_dedup_refs_unique(s.drop_last());
        let prev = dedup_refs(s.drop_last());
        if !ref_names(prev).contains(s.last().name@) {
            assert forall|i: int, j: int|
                0 <= i < j < dedup_refs(s).len() implies (#[trigger] dedup_refs(s)[i]).name@ != (
                #[trigger] dedup_refs(s)[j]).name@ by {
                if j == prev.len() {
                    assert(ref_names(prev)[i] == prev[i].name@);
                }
            }
        }
    }
}

/// The repository's listing depends on nothing but the registries, in
/// resolution order, and names no reference twice.
pub proof fn law_listing_stable_and_unique(
    a: RepositoryStore,
    b: RepositoryStore,
    tag: Option<Seq<char>>,
    kind: Option<Seq<char>>,
)
    requires
        a.regs() == b.regs(),
    ensures
        a.listing(tag, kind) == b.listing(tag, kind),
        forall|i: int, j: int|
            0 <= i < j < a.listing(tag, kind).len() ==> (#[trigger] a.listing(tag, kind)[i]).name@
                != (#[trigger] a.listing(tag, kind)[j]).name@,
{
    assert forall|k: int| #![auto] 0 <= k <= a.regs().len() implies a.hits(k, tag, kind) == b.hits(k, tag, kind) by {
        lemma_hits_equal(a, b, k, tag, kind);
    }
    lemma_dedup_refs_unique(a.hits(a.regs().len() as int, tag, kind));
}

proof fn lemma_hits_equal(
    a: RepositoryStore,
    b: RepositoryStore,
    k: int,
    tag: Option<Seq<char>>,
    kind: Option<Seq<char>>,
)
    requires
        a.regs() == b.regs(),
    ensures
        a.hits(k, tag, kind) == b.hits(k, tag, kind),
    decreases k,
{
    if k > 0 {
        lemma_hits_equal(a, b, k - 1, tag, kind);
    }
}

/// A name held locally resolves to the local registry; a name held by the
/// remote at position `i` alone resolves to that remote.
pub proof fn law_local_shadows_remote(repo: RepositoryStore, a: Seq<char>, b: Seq<char>, i: int)
    requires
        1 <= i < repo.regs().len(),
        repo.local_store().refs().contains_key(a),
        repo.regs()[i].refs().contains_key(b),
        forall|j: int| 0 <= j < repo.regs().len() && j != i ==> !(#[trigger] repo.regs()[j]).refs().contains_key(b),
    ensures
        repo.resolves(a),
        repo.reg_names()[repo.resolution(a)] == local_name(),
        repo.resolves(b),
        repo.resolution(b) == i,
        repo.reg_names()[repo.resolution(b)] == repo.reg_names()[i],
{
    assert(repo.regs()[0] == repo.local_store());
    assert(repo.first_holder(a, 0));
    repo.lemma_resolution(a);
    repo.lemma_first_holder_unique(a, 0, repo.resolution(a));
    assert(repo.first_holder(b, i));
    repo.lemma_resolution(b);
    repo.lemma_first_holder_unique(b, i, repo.resolution(b));
}

/// After `add(r)` succeeds, `r.name` resolves, from the local registry, to
/// `r`, whose content lives under the local `content/<name>`.
pub proof fn law_add_then_get(before: RepositoryStore, after: RepositoryStore, r: Reference)
    requires
        added_reference(before, after, r),
    ensures
        after.resolves(r.name@),
        after.resolution(r.name@) == 0,
        after.resolved(r.name@) == r,
        after.regs()[0].spec_content_path(r.name@) == path_join(
            path_join(before.local_store().root_view(), "content"@),
            r.name@,
        ),
{
    assert(after.regs()[0] == after.local_store());
    assert(after.first_holder(r.name@, 0));
    after.lemma_resolution(r.name@);
    after.lemma_first_holder_unique(r.name@, 0, after.resolution(r.name@));
}

/// After `remove(name)` succeeds, the local registry no longer holds `name`,
/// and, when no remote holds it, `name` resolves nowhere.
pub proof fn law_remove_then_get(before: RepositoryStore, after: RepositoryStore, name: Seq<char>)
    requires
        removed_reference(before, after, name),
    ensures
        !after.local_store().refs().contains_key(name),
        (forall|j: int| 1 <= j < after.regs().len() ==> !(#[trigger] after.regs()[j]).refs().contains_key(name))
            ==> !after.resolves(name),
{
    assert(after.regs()[0] == after.local_store());
}

/// After `add_bundle(b)` succeeds, `b.name` resolves to `b`.
pub proof fn law_add_bundle_then_get(before: RepositoryStore, after: RepositoryStore, b: Bundle)
    requires
        added_bundle(before, after, b),
    ensures
        after.bundle_resolves(b.name@),
        after.resolved_bundle(b.name@) == b,
{
    assert(after.regs()[0] == after.local_store());
    assert(after.first_bundle_holder(b.name@, 0));
    let i = choose|i: int| after.first_bundle_holder(b.name@, i);
    assert(i == 0);
}

proof fn lemma_push_contains(p: Seq<Seq<char>>, y: Seq<char>, x: Seq<char>)
    ensures
        p.push(y).contains(x) <==> (p.contains(x) || y == x),
{
    if p.contains(x) {
        let j = choose|j: int| 0 <= j < p.len() && p[j] == x;
        assert(p.push(y)[j] == x);
    }
    if y == x {
        assert(p.push(y)[p.len() as int] == x);
    }
    if p.push(y).contains(x) {
        let j = choose|j: int| 0 <= j < p.push(y).len() && p.push(y)[j] == x;
        if j < p.len() {
            assert(p[j] == x);
        }
    }
}

proof fn lemma_with_members_contains(m: Seq<Seq<char>>, add: Seq<Seq<char>>)
    ensures
        forall|x: Seq<char>| m.contains(x) ==> #[trigger] with_members(m, add).contains(x),
        forall|x: Seq<char>| add.contains(x) ==> #[trigger] with_members(m, add).contains(x),
    decreases add.len(),
{
    if add.len() > 0 {
        lemma_with_members_contains(m, add.drop_last());
        let p = with_members(m, add.drop_last());
        assert forall|x: Seq<char>| add.contains(x) || m.contains(x) implies #[trigger] with_members(m, add).contains(x) by {
            lemma_push_contains(p, add.last(), x);
            if add.contains(x) {
                let j = choose|j: int| 0 <= j < add.len() && add[j] == x;
                if j < add.len() - 1 {
                    assert(add.drop_last()[j] == x);
                }
            }
        }
    }
}

proof fn lemma_with_members_present(m: Seq<Seq<char>>, add: Seq<Seq<char>>)
    requires
        forall|x: Seq<char>| add.contains(x) ==> m.contains(x),
    ensures
        with_members(m, add) == m,
    decreases add.len(),
{
    if add.len() > 0 {
        assert forall|x: Seq<char>| add.drop_last().contains(x) implies m.contains(x) by {
            let j = choose|j: int| 0 <= j < add.drop_last().len() && add.drop_last()[j] == x;
            assert(add[j] == x);
        }
        lemma_with_members_present(m, add.drop_last());
        assert(add.contains(add.last()));
    }
}

proof fn lemma_without_nothing(m: Seq<Seq<char>>)
    ensures
        without_members(m, Seq::empty()) == m,
    decreases m.len(),
{
    if m.len() > 0 {
        lemma_without_nothing(m.drop_last());
        assert(m.drop_last().push(m.last()) =~= m);
    }
}

proof fn lemma_without_excludes(m: Seq<Seq<char>>, rem: Seq<Seq<char>>)
    ensures
        forall|x: Seq<char>| rem.contains(x) ==> !(#[trigger] without_members(m, rem).contains(x)),
    decreases m.len(),
{
    if m.len() > 0 {
        lemma_without_excludes(m.drop_last(), rem);
        let p = without_members(m.drop_last(), rem);
        assert forall|x: Seq<char>| rem.contains(x) implies !(#[trigger] without_members(m, rem).contains(x)) by {
            lemma_push_contains(p, m.last(), x);
        }
    }
}

/// Adding the same members to a bundle again leaves it as it was; members
/// named for removal are gone afterwards.
pub proof fn law_update_bundle(
    s0: RepositoryStore,
    s1: RepositoryStore,
    s2: RepositoryStore,
    name: Seq<char>,
    add: Seq<Seq<char>>,
    rem: Seq<Seq<char>>,
)
    requires
        updated_bundle(s0, s1, name, add, Seq::empty(), None),
        updated_bundle(s1, s2, name, add, Seq::empty(), None),
    ensures
        str_views(s2.local_store().bundles()[name].references@) == str_views(
            s1.local_store().bundles()[name].references@,
        ),
        forall|x: Seq<char>|
            rem.contains(x) ==> !(#[trigger] without_members(
                with_members(str_views(s0.local_store().bundles()[name].references@), add),
                rem,
            ).contains(x)),
{
    let m0 = str_views(s0.local_store().bundles()[name].references@);
    let m1 = str_views(s1.local_store().bundles()[name].references@);
    lemma_without_nothing(with_members(m0, add));
    lemma_with_members_contains(m0, add);
    lemma_with_members_present(m1, add);
    lemma_without_nothing(with_members(m1, add));
    lemma_without_excludes(with_members(m0, add), rem);
}

proof fn lemma_registries_without_absent(s: Seq<Registry>, name: Seq<char>)
    requires
        !registry_names(s).contains(name),
    ensures
        registries_without(s, name) == s,
    decreases s.len(),
{
    if s.len() > 0 {
        assert(registry_names(s)[s.len() - 1] == s.last().name@);
        assert(!registry_names(s.drop_last()).contains(name)) by {
            if registry_names(s.drop_last()).contains(name) {
                let j = choose|j: int| 0 <= j < registry_names(s.drop_last()).len() && registry_names(s.drop_last())[j] == name;
                assert(registry_names(s)[j] == name);
            }
        }
        lemma_registries_without_absent(s.drop_last(), name);
        assert(s.drop_last().push(s.last()) =~= s);
    }
}

/// Adding a registry and then removing it leaves the attached registries
/// and the configured ones as they were.
pub proof fn law_registry_add_remove(
    s0: RepositoryStore,
    s1: RepositoryStore,
    s2: RepositoryStore,
    name: Seq<char>,
    url: Seq<char>,
)
    requires
        !s0.remote_map().contains_key(name),
        !registry_names(s0.spec_config().registries@).contains(name),
        added_registry(s0, s1, name, url),
        removed_registry(s1, s2, name),
    ensures
        s2.remote_map() == s0.remote_map(),
        s2.spec_config().registries@ == s0.spec_config().registries@,
{
    assert(s0.remote_map().remove(name) =~= s0.remote_map());
    let r1 = s1.spec_config().registries@;
    assert(r1.drop_last() == s0.spec_config().registries@);
    assert(registries_without(r1, name) == registries_without(r1.drop_last(), name));
    lemma_registries_without_absent(s0.spec_config().registries@, name);
}

proof fn lemma_dedup_refs_from(s: Seq<Reference>)
    ensures
        forall|i: int| 0 <= i < dedup_refs(s).len() ==> s.contains(#[trigger] dedup_refs(s)[i]),
    decreases s.len(),
{
    if s.len() > 0 {
        lemma_dedup_refs_from(s.drop_last());
        let prev = dedup_refs(s.drop_last());
        assert forall|i: int| 0 <= i < dedup_refs(s).len() implies s.contains(#[trigger] dedup_refs(s)[i]) by {
            if i < prev.len() {
                assert(dedup_refs(s)[i] == prev[i]);
                let j = choose|j: int| 0 <= j < s.drop_last().len() && s.drop_last()[j] == prev[i];
                assert(s[j] == prev[i]);
            } else {
                assert(s[s.len() - 1] == s.last());
            }
        }
    }
}

proof fn lemma_hits_selected(repo: RepositoryStore, k: int, tag: Option<Seq<char>>, kind: Option<Seq<char>>)
    requires
        k <= repo.regs().len(),
    ensures
        forall|i: int| 0 <= i < repo.hits(k, tag, kind).len() ==> crate::registry::ref_selected(#[trigger] repo.hits(k, tag, kind)[i], tag, kind),
    decreases k,
{
    if k > 0 {
        lemma_hits_selected(repo, k - 1, tag, kind);
        let prev = repo.hits(k - 1, tag, kind);
        let more = selected_refs(repo.regs()[k - 1].spec_index().references.seq(), tag, kind);
        lemma_selected_refs_subset(repo.regs()[k - 1].spec_index().references.seq(), tag, kind);
        assert forall|i: int| 0 <= i < repo.hits(k, tag, kind).len() implies crate::registry::ref_selected(#[trigger] repo.hits(k, tag, kind)[i], tag, kind) by {
            if i < prev.len() {
                assert(repo.hits(k, tag, kind)[i] == prev[i]);
            } else {
                assert(repo.hits(k, tag, kind)[i] == more[i - prev.len()]);
            }
        }
    }
}

/// Every reference the repository lists under filters passes them.
pub proof fn law_listing_filtered(repo: RepositoryStore, tag: Option<Seq<char>>, kind: Option<Seq<char>>)
    ensures
        forall|i: int|
            0 <= i < repo.listing(tag, kind).len() ==> crate::registry::ref_selected(
                #[trigger] repo.listing(tag, kind)[i],
                tag,
                kind,
            ),
{
    let h = repo.hits(repo.regs().len() as int, tag, kind);
    lemma_hits_selected(repo, repo.regs().len() as int, tag, kind);
    lemma_dedup_refs_from(h);
    assert forall|i: int| 0 <= i < repo.listing(tag, kind).len() implies crate::registry::ref_selected(
        #[trigger] repo.listing(tag, kind)[i],
        tag,
        kind,
    ) by {
        let x = repo.listing(tag, kind)[i];
        assert(h.contains(x));
        let j = choose|j: int| 0 <= j < h.len() && h[j] == x;
    }
}

/// After `update_bundle` succeeds, calling it again with the same members
/// to add succeeds too: the bundle is still local and every name still
/// resolves.
pub proof fn law_update_bundle_again(
    s0: RepositoryStore,
    s1: RepositoryStore,
    name: Seq<char>,
    add: Seq<Seq<char>>,
    rem: Seq<Seq<char>>,
    desc: Option<String>,
)
    requires
        forall|i: int| 0 <= i < add.len() ==> s0.resolves(#[trigger] add[i]),
        updated_bundle(s0, s1, name, add, rem, desc),
    ensures
        forall|i: int| 0 <= i < add.len() ==> s1.resolves(#[trigger] add[i]),
        s1.local_store().bundles().contains_key(name),
{
    assert(s1.regs().len() == s0.regs().len());
    assert forall|i: int| 0 <= i < add.len() implies s1.resolves(#[trigger] add[i]) by {
        let m = add[i];
        assert(s0.resolves(m));
        let k = choose|k: int| 0 <= k < s0.regs().len() && (#[trigger] s0.regs()[k]).refs().contains_key(m);
        if k == 0 {
            assert(s0.regs()[0] == s0.local_store());
            assert(s1.regs()[0] == s1.local_store());
        } else {
            assert(s1.regs()[k] == s0.regs()[k]);
        }
        assert(s1.regs()[k].refs().contains_key(m));
    }
}

proof fn lemma_selected_all(s: Seq<(Seq<char>, Reference)>)
    ensures
        selected_refs(s, None, None) == s.map_values(|e: (Seq<char>, Reference)| e.1),
    decreases s.len(),
{
    if s.len() > 0 {
        lemma_selected_all(s.drop_last());
        assert(s.map_values(|e: (Seq<char>, Reference)| e.1) =~= s.drop_last().map_values(
            |e: (Seq<char>, Reference)| e.1,
        ).push(s.last().1));
    } else {
        assert(s.map_values(|e: (Seq<char>, Reference)| e.1) =~= Seq::<Reference>::empty());
    }
}

proof fn lemma_dedup_prefix(a: Seq<Reference>, b: Seq<Reference>)
    ensures
        dedup_refs(a).len() <= dedup_refs(a + b).len(),
        dedup_refs(a + b).subrange(0, dedup_refs(a).len() as int) == dedup_refs(a),
    decreases b.len(),
{
    if b.len() == 0 {
        assert(a + b =~= a);
        assert(dedup_refs(a).subrange(0, dedup_refs(a).len() as int) =~= dedup_refs(a));
    } else {
        lemma_dedup_prefix(a, b.drop_last());
        assert((a + b).drop_last() =~= a + b.drop_last());
        let p = dedup_refs(a + b.drop_last());
        assert(dedup_refs(a + b).subrange(0, dedup_refs(a).len() as int) =~= p.subrange(0, dedup_refs(a).len() as int));
    }
}

proof fn lemma_dedup_distinct(s: Seq<Reference>)
    requires
        forall|i: int, j: int| 0 <= i < j < s.len() ==> (#[trigger] s[i]).name@ != (#[trigger] s[j]).name@,
    ensures
        dedup_refs(s) == s,
    decreases s.len(),
{
    if s.len() > 0 {
        lemma_dedup_distinct(s.drop_last());
        let p = s.drop_last();
        if ref_names(p).contains(s.last().name@) {
            let j = choose|j: int| 0 <= j < ref_names(p).len() && ref_names(p)[j] == s.last().name@;
            assert(s[j].name@ == s[s.len() - 1].name@);
        }
        assert(p.push(s.last()) =~= s);
    }
}

proof fn lemma_hits_prefix(repo: RepositoryStore, k: int)
    requires
        1 <= k,
    ensures
        dedup_refs(repo.hits(1, None, None)).len() <= dedup_refs(repo.hits(k, None, None)).len(),
        dedup_refs(repo.hits(k, None, None)).subrange(0, dedup_refs(repo.hits(1, None, None)).len() as int)
            == dedup_refs(repo.hits(1, None, None)),
    decreases k,
{
    if k > 1 {
        lemma_hits_prefix(repo, k - 1);
        let sel = selected_refs(repo.regs()[k - 1].spec_index().references.seq(), None, None);
        lemma_dedup_prefix(repo.hits(k - 1, None, None), sel);
        let d1 = dedup_refs(repo.hits(1, None, None));
        let dk1 = dedup_refs(repo.hits(k - 1, None, None));
        let dk = dedup_refs(repo.hits(k, None, None));
        assert(dk.subrange(0, d1.len() as int) =~= dk.subrange(0, dk1.len() as int).subrange(0, d1.len() as int));
    }
}

/// A name that the local registry holds is listed exactly once by the
/// unfiltered listing, as the local reference.
pub proof fn law_local_listed_once(repo: RepositoryStore, n: Seq<char>)
    requires
        repo.wf(),
        repo.local_store().refs().contains_key(n),
    ensures
        exists|i: int|
            0 <= i < repo.listing(None, None).len() && #[trigger] repo.listing(None, None)[i]
                == repo.local_store().refs()[n],
        forall|i: int, j: int|
            0 <= i < repo.listing(None, None).len() && 0 <= j < repo.listing(None, None).len()
                && (#[trigger] repo.listing(None, None)[i]).name@ == n && (#[trigger] repo.listing(
                None,
                None,
            )[j]).name@ == n ==> i == j,
{
    let local = repo.local_store();
    let seq = local.spec_index().references.seq();
    let vals = seq.map_values(|e: (Seq<char>, Reference)| e.1);
    assert(repo.regs()[0] == local);
    lemma_selected_all(seq);
    assert(repo.hits(0, None, None) =~= Seq::<Reference>::empty());
    assert(repo.hits(1, None, None) == repo.hits(0, None, None) + selected_refs(
        repo.regs()[0].spec_index().references.seq(),
        None,
        None,
    ));
    assert(repo.hits(1, None, None) =~= vals);
    assert forall|i: int| 0 <= i < vals.len() implies (#[trigger] vals[i]).name@ == seq[i].0 by {
        local.spec_index().references.lemma_index(i);
    }
    assert forall|i: int, j: int| 0 <= i < j < vals.len() implies (#[trigger] vals[i]).name@ != (#[trigger] vals[j]).name@ by {
        assert(vals[i].name@ == seq[i].0);
        assert(vals[j].name@ == seq[j].0);
        crate::text::lemma_name_lt_irreflexive(seq[i].0);
    }
    lemma_dedup_distinct(vals);
    let k = crate::namemap::index_of(seq, n);
    local.spec_index().references.lemma_index(k);
    lemma_hits_prefix(repo, repo.regs().len() as int);
    let l = repo.listing(None, None);
    assert(l.subrange(0, vals.len() as int)[k] == vals[k]);
    assert(l[k] == local.refs()[n]);
    law_listing_stable_and_unique(repo, repo, None, None);
}

} // verus!

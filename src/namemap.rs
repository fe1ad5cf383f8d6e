use vstd::prelude::*;

use crate::text::{compare_names, lemma_name_lt_irreflexive, lemma_name_lt_transitive, name_lt, NameOrder};

verus! {

/// A map from names to values, kept as a vector of entries sorted by name.
/// Names are unique; listing the values yields them in name order.
pub struct NameMap<V> {
    entries: Vec<(String, V)>,
}

/// The names of `s` increase strictly from left to right.
pub open spec fn names_sorted<V>(s: Seq<(Seq<char>, V)>) -> bool {
    forall|i: int, j: int| 0 <= i < j < s.len() ==> name_lt(s[i].0, s[j].0)
}

/// The map whose keys and values are the entries of `s`.
pub open spec fn map_of<V>(s: Seq<(Seq<char>, V)>) -> Map<Seq<char>, V> {
    Map::new(
        |k: Seq<char>| exists|i: int| 0 <= i < s.len() && s[i].0 == k,
        |k: Seq<char>| s[index_of(s, k)].1,
    )
}

/// Some position of `s` whose name is `k`.
pub open spec fn index_of<V>(s: Seq<(Seq<char>, V)>, k: Seq<char>) -> int {
    choose|i: int| 0 <= i < s.len() && s[i].0 == k
}

pub proof fn lemma_map_of_index<V>(s: Seq<(Seq<char>, V)>, idx: int)
    requires
        names_sorted(s),
        0 <= idx < s.len(),
    ensures
        map_of(s).contains_key(s[idx].0),
        map_of(s)[s[idx].0] == s[idx].1,
{
    let k = s[idx].0;
    assert(0 <= idx < s.len() && s[idx].0 == k);
    let i = index_of(s, k);
    if i < idx {
        assert(name_lt(s[i].0, s[idx].0));
        lemma_name_lt_irreflexive(k);
    } else if idx < i {
        assert(name_lt(s[idx].0, s[i].0));
        lemma_name_lt_irreflexive(k);
    }
    assert(map_of(s).contains_key(k));
}

impl<V> NameMap<V> {
    /// The entries in name order, names as character sequences.
    pub closed spec fn seq(&self) -> Seq<(Seq<char>, V)> {
        self.entries@.map_values(|e: (String, V)| (e.0@, e.1))
    }

    pub open spec fn wf(&self) -> bool {
        names_sorted(self.seq())
    }

    pub open spec fn view(&self) -> Map<Seq<char>, V> {
        map_of(self.seq())
    }

    pub open spec fn spec_len(&self) -> nat {
        self.seq().len()
    }

    pub proof fn lemma_index(&self, i: int)
        requires
            self.wf(),
            0 <= i < self.seq().len(),
        ensures
            self@.contains_key(self.seq()[i].0),
            self@[self.seq()[i].0] == self.seq()[i].1,
    {
        lemma_map_of_index(self.seq(), i);
    }

    pub fn new() -> (r: Self)
        ensures
            r.wf(),
            r.seq() == Seq::<(Seq<char>, V)>::empty(),
            r@ == Map::<Seq<char>, V>::empty(),
    {
        let r = NameMap { entries: Vec::new() };
        assert(r.seq() =~= Seq::<(Seq<char>, V)>::empty());
        assert(r@ =~= Map::<Seq<char>, V>::empty());
        r
    }

    pub fn len(&self) -> (r: usize)
        ensures
            r == self.seq().len(),
    {
        self.entries.len()
    }

    pub fn key_at(&self, i: usize) -> (r: &String)
        requires
            i < self.seq().len(),
        ensures
            r@ == self.seq()[i as int].0,
    {
        &self.entries[i].0
    }

    pub fn value_at(&self, i: usize) -> (r: &V)
        requires
            i < self.seq().len(),
        ensures
            *r == self.seq()[i as int].1,
    {
        &self.entries[i].1
    }

    /// Where `k` stands, or where it would be inserted.
    fn locate(&self, k: &str) -> (r: Result<usize, usize>)
        requires
            self.wf(),
        ensures
            match r {
                Ok(i) => i < self.seq().len() && self.seq()[i as int].0 == k@,
                Err(p) => {
                    &&& p <= self.seq().len()
                    &&& forall|j: int| 0 <= j < p ==> name_lt(#[trigger] self.seq()[j].0, k@)
                    &&& forall|j: int| p <= j < self.seq().len() ==> name_lt(k@, #[trigger] self.seq()[j].0)
                },
            },
    {
        let n = self.entries.len();
        let mut i: usize = 0;
        while i < n
            invariant
                self.wf(),
                n == self.seq().len(),
                i <= n,
                forall|j: int| 0 <= j < i ==> name_lt(#[trigger] self.seq()[j].0, k@),
            decreases n - i,
        {
            match compare_names(self.entries[i].0.as_str(), k) {
                NameOrder::Less => {},
                NameOrder::Equal => {
                    return Ok(i);
                },
                NameOrder::Greater => {
                    assert forall|j: int| i <= j < self.seq().len() implies name_lt(k@, #[trigger] self.seq()[j].0) by {
                        if j > i {
                            lemma_name_lt_transitive(k@, self.seq()[i as int].0, self.seq()[j].0);
                        }
                    }
                    return Err(i);
                },
            }
            i = i + 1;
        }
        Err(i)
    }

    pub fn contains(&self, k: &str) -> (r: bool)
        requires
            self.wf(),
        ensures
            r == self@.contains_key(k@),
    {
        match self.locate(k) {
            Ok(i) => {
                proof {
                    self.lemma_index(i as int);
                }
                true
            },
            Err(p) => {
                proof {
                    if self@.contains_key(k@) {
                        let j = choose|j: int| 0 <= j < self.seq().len() && self.seq()[j].0 == k@;
                        lemma_name_lt_irreflexive(k@);
                        if j < p {
                            assert(name_lt(self.seq()[j].0, k@));
                        } else {
                            assert(name_lt(k@, self.seq()[j].0));
                        }
                    }
                }
                false
            },
        }
    }

    pub fn get(&self, k: &str) -> (r: Option<&V>)
        requires
            self.wf(),
        ensures
            match r {
                Some(v) => self@.contains_key(k@) && *v == self@[k@],
                None => !self@.contains_key(k@),
            },
    {
        match self.locate(k) {
            Ok(i) => {
                proof {
                    self.lemma_index(i as int);
                }
                Some(&self.entries[i].1)
            },
            Err(_) => {
                let found = self.contains(k);
                assert(!found);
                None
            },
        }
    }

    /// Adds `k` with `v` unless `k` is present already; says whether it added.
    pub fn insert(&mut self, k: String, v: V) -> (r: bool)
        requires
            old(self).wf(),
        ensures
            final(self).wf(),
            r == !old(self)@.contains_key(k@),
            r ==> final(self)@ == old(self)@.insert(k@, v),
            !r ==> *final(self) == *old(self),
    {
        let ghost old_seq = self.seq();
        match self.locate(k.as_str()) {
            Ok(i) => {
                proof {
                    self.lemma_index(i as int);
                }
                false
            },
            Err(p) => {
                let present = self.contains(k.as_str());
                assert(!present);
                let ghost kv = k@;
                self.entries.insert(p, (k, v));
                let ghost new_seq = self.seq();
                assert(new_seq =~= old_seq.insert(p as int, (kv, v)));
                assert forall|i: int, j: int| 0 <= i < j < new_seq.len() implies name_lt(
                    new_seq[i].0,
                    new_seq[j].0,
                ) by {
                    if j < p {
                    } else if j == p {
                    } else if i < p {
                        lemma_name_lt_transitive(old_seq[i].0, kv, old_seq[j - 1].0);
                    } else if i == p {
                    } else {
                    }
                }
                assert(self.wf());
                assert forall|key: Seq<char>| #[trigger]
                    self@.contains_key(key) == (key == kv || map_of(old_seq).contains_key(key)) by {
                    if self@.contains_key(key) {
                        let j = choose|j: int| 0 <= j < new_seq.len() && new_seq[j].0 == key;
                        if j < p {
                            assert(old_seq[j].0 == key);
                        } else if j > p {
                            assert(old_seq[j - 1].0 == key);
                        }
                    }
                    if map_of(old_seq).contains_key(key) {
                        let j = choose|j: int| 0 <= j < old_seq.len() && old_seq[j].0 == key;
                        if j < p {
                            assert(new_seq[j].0 == key);
                        } else {
                            assert(new_seq[j + 1].0 == key);
                        }
                    }
                    if key == kv {
                        assert(new_seq[p as int].0 == key);
                    }
                }
                assert forall|key: Seq<char>| #[trigger] self@.contains_key(key) implies self@[key]
                    == old(self)@.insert(kv, v)[key] by {
                    let j = choose|j: int| 0 <= j < new_seq.len() && new_seq[j].0 == key;
                    self.lemma_index(j);
                    if j < p {
                        lemma_map_of_index(old_seq, j);
                    } else if j > p {
                        lemma_map_of_index(old_seq, j - 1);
                    }
                }
                assert(self@ =~= old(self)@.insert(kv, v));
                true
            },
        }
    }

    /// Takes `k` out, handing back its value.
    pub fn remove(&mut self, k: &str) -> (r: Option<V>)
        requires
            old(self).wf(),
        ensures
            final(self).wf(),
            final(self)@ == old(self)@.remove(k@),
            match r {
                Some(v) => old(self)@.contains_key(k@) && v == old(self)@[k@],
                None => !old(self)@.contains_key(k@) && *final(self) == *old(self),
            },
    {
        let ghost old_seq = self.seq();
        match self.locate(k) {
            Ok(p) => {
                proof {
                    self.lemma_index(p as int);
                }
                let (_, v) = self.entries.remove(p);
                let ghost new_seq = self.seq();
                assert(new_seq =~= old_seq.remove(p as int));
                assert forall|i: int, j: int| 0 <= i < j < new_seq.len() implies name_lt(
                    new_seq[i].0,
                    new_seq[j].0,
                ) by {
                    if j < p {
                    } else if i < p {
                        assert(name_lt(old_seq[i].0, old_seq[j + 1].0));
                    } else {
                        assert(name_lt(old_seq[i + 1].0, old_seq[j + 1].0));
                    }
                }
                assert(self.wf());
                assert forall|key: Seq<char>| #[trigger]
                    self@.contains_key(key) == (key != k@ && map_of(old_seq).contains_key(key)) by {
                    if self@.contains_key(key) {
                        let j = choose|j: int| 0 <= j < new_seq.len() && new_seq[j].0 == key;
                        if j < p {
                            assert(old_seq[j].0 == key);
                            assert(name_lt(old_seq[j].0, old_seq[p as int].0));
                        } else {
                            assert(old_seq[j + 1].0 == key);
                            assert(name_lt(old_seq[p as int].0, old_seq[j + 1].0));
                        }
                        lemma_name_lt_irreflexive(key);
                    }
                    if key != k@ && map_of(old_seq).contains_key(key) {
                        let j = choose|j: int| 0 <= j < old_seq.len() && old_seq[j].0 == key;
                        if j < p {
                            assert(new_seq[j].0 == key);
                        } else {
                            assert(j != p);
                            assert(new_seq[j - 1].0 == key);
                        }
                    }
                }
                assert forall|key: Seq<char>| #[trigger] self@.contains_key(key) implies self@[key]
                    == old(self)@.remove(k@)[key] by {
                    let j = choose|j: int| 0 <= j < new_seq.len() && new_seq[j].0 == key;
                    self.lemma_index(j);
                    if j < p {
                        lemma_map_of_index(old_seq, j);
                    } else {
                        lemma_map_of_index(old_seq, j + 1);
                    }
                }
                assert(self@ =~= old(self)@.remove(k@));
                Some(v)
            },
            Err(_) => {
                let present = self.contains(k);
                assert(!present);
                assert(self@ =~= old(self)@.remove(k@));
                None
            },
        }
    }
}

} // verus!

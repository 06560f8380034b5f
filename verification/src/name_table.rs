//! A finite map keyed by names, stored as two parallel vectors whose keys are
//! kept in strictly increasing code-point order. The registries of the crate
//! (WAN lines, WiFi channels, installed plugins) are built on it, so that
//! looking a name up, registering it twice and listing the names in sorted
//! order all have exact contracts.

use vstd::prelude::*;

use crate::text::{
    char_seq_lt, lemma_char_seq_lt_irreflexive, lemma_char_seq_lt_total,
    lemma_char_seq_lt_transitive, lemma_strictly_sorted_no_duplicates, str_eq, str_lt,
    strictly_sorted,
};

verus! {

pub struct NameTable<V> {
    keys: Vec<String>,
    vals: Vec<V>,
}

impl<V: Copy> NameTable<V> {
    /// The names, in the order in which they are stored.
    pub closed spec fn key_seq(&self) -> Seq<Seq<char>> {
        self.keys@.map_values(|k: String| k@)
    }

    /// Well-formedness: one value per key, keys strictly sorted.
    pub closed spec fn wf(&self) -> bool {
        &&& self.keys@.len() == self.vals@.len()
        &&& strictly_sorted(self.key_seq())
    }

    /// The table as a map from names to values.
    pub closed spec fn view(&self) -> Map<Seq<char>, V> {
        Map::new(
            |k: Seq<char>| self.key_seq().contains(k),
            |k: Seq<char>| self.vals@[self.key_seq().index_of(k)],
        )
    }

    proof fn lemma_index(&self, i: int)
        requires
            self.wf(),
            0 <= i < self.keys@.len(),
        ensures
            self.view().dom().contains(self.key_seq()[i]),
            self.view()[self.key_seq()[i]] == self.vals@[i],
    {
        let ks = self.key_seq();
        lemma_strictly_sorted_no_duplicates(ks);
        assert(ks.contains(ks[i]));
        let j = ks.index_of(ks[i]);
        assert(ks[j] == ks[i]);
    }

    proof fn lemma_len(&self)
        requires
            self.wf(),
        ensures
            self.view().dom().finite(),
            self.view().dom().len() == self.keys@.len(),
    {
        let ks = self.key_seq();
        lemma_strictly_sorted_no_duplicates(ks);
        ks.unique_seq_to_set();
        assert(self.view().dom() =~= ks.to_set());
    }

    /// The table holds finitely many names, as many as it stores.
    pub proof fn lemma_len_public(&self)
        requires
            self.wf(),
        ensures
            self.view().dom().finite(),
            self.view().dom().len() == self.key_seq().len(),
    {
        self.lemma_len();
    }

    pub fn new() -> (t: Self)
        ensures
            t.wf(),
            t.view() == Map::<Seq<char>, V>::empty(),
    {
        let t = NameTable { keys: Vec::new(), vals: Vec::new() };
        assert(t.key_seq() =~= Seq::<Seq<char>>::empty());
        assert(t.view() =~= Map::<Seq<char>, V>::empty());
        t
    }

    /// The number of names in the table.
    pub fn len(&self) -> (n: usize)
        requires
            self.wf(),
        ensures
            n == self.view().dom().len(),
            self.view().dom().finite(),
    {
        proof {
            self.lemma_len();
        }
        self.keys.len()
    }

    /// The position of the first key that is not below `name`, and whether
    /// that key is `name` itself.
    fn find(&self, name: &str) -> (r: (bool, usize))
        requires
            self.wf(),
        ensures
            r.1 <= self.keys@.len(),
            forall|j: int| 0 <= j < r.1 ==> char_seq_lt(#[trigger] self.key_seq()[j], name@),
            forall|j: int|
                r.1 <= j < self.keys@.len() ==> !char_seq_lt(#[trigger] self.key_seq()[j], name@),
            r.0 <==> (r.1 < self.keys@.len() && self.key_seq()[r.1 as int] == name@),
            r.0 <==> self.view().dom().contains(name@),
    {
        let n = self.keys.len();
        let mut i: usize = 0;
        let mut stop = false;
        while i < n && !stop
            invariant
                n == self.keys@.len(),
                self.wf(),
                i <= n,
                forall|j: int| 0 <= j < i ==> char_seq_lt(#[trigger] self.key_seq()[j], name@),
                stop ==> i < n && !char_seq_lt(self.key_seq()[i as int], name@),
            decreases n - i, (if stop { 0int } else { 1int }),
        {
            if !str_lt(self.keys[i].as_str(), name) {
                stop = true;
                assert(self.key_seq()[i as int] == self.keys@[i as int]@);
            } else {
                i = i + 1;
            }
        }
        let ghost ks = self.key_seq();
        proof {
            if i < n {
                assert(ks[i as int] == self.keys@[i as int]@);
            }
            assert forall|j: int| i <= j < n implies !char_seq_lt(#[trigger] ks[j], name@) by {
                if j > i {
                    if char_seq_lt(ks[j], name@) {
                        assert(char_seq_lt(ks[i as int], ks[j]));
                        lemma_char_seq_lt_transitive(ks[i as int], ks[j], name@);
                    }
                }
            }
        }
        let found = if i < n {
            str_eq(self.keys[i].as_str(), name)
        } else {
            false
        };
        proof {
            if i < n {
                assert(ks[i as int] == self.keys@[i as int]@);
            }
            if found {
                self.lemma_index(i as int);
            }
            if self.view().dom().contains(name@) {
                let j = choose|j: int| 0 <= j < ks.len() && ks[j] == name@;
                lemma_char_seq_lt_irreflexive(name@);
                if j < i {
                } else if j > i {
                    lemma_char_seq_lt_total(ks[i as int], name@);
                    if ks[i as int] != name@ {
                        assert(char_seq_lt(name@, ks[i as int]));
                        assert(char_seq_lt(ks[i as int], ks[j]));
                        lemma_char_seq_lt_transitive(name@, ks[i as int], ks[j]);
                    }
                }
            }
        }
        (found, i)
    }

    /// Whether `name` is in the table.
    pub fn contains(&self, name: &str) -> (r: bool)
        requires
            self.wf(),
        ensures
            r == self.view().dom().contains(name@),
    {
        self.find(name).0
    }

    /// The value stored under `name`, if any.
    pub fn get(&self, name: &str) -> (r: Option<V>)
        requires
            self.wf(),
        ensures
            r == (if self.view().dom().contains(name@) {
                Some(self.view()[name@])
            } else {
                None
            }),
    {
        let (found, i) = self.find(name);
        if found {
            proof {
                self.lemma_index(i as int);
            }
            Some(self.vals[i])
        } else {
            None
        }
    }

    /// Stores `v` under `name`, replacing the value already there.
    pub fn insert(&mut self, name: &str, v: V)
        requires
            old(self).wf(),
        ensures
            final(self).wf(),
            final(self).view() == old(self).view().insert(name@, v),
    {
        let (found, i) = self.find(name);
        let ghost old_ks = self.key_seq();
        let ghost old_view = self.view();
        if found {
            self.vals.set(i, v);
            proof {
                assert(self.key_seq() =~= old_ks);
                assert forall|k: Seq<char>| #[trigger] self.view().dom().contains(k) implies self.view()[k]
                    == old_view.insert(name@, v)[k] by {
                    let j = old_ks.index_of(k);
                    self.lemma_index(j);
                    if k == name@ {
                        lemma_strictly_sorted_no_duplicates(old_ks);
                    }
                }
                assert(self.view() =~= old_view.insert(name@, v));
            }
        } else {
            let s = name.to_owned();
            self.keys.insert(i, s);
            self.vals.insert(i, v);
            let ghost ks = self.key_seq();
            proof {
                assert(ks =~= old_ks.insert(i as int, name@));
                if i < old_ks.len() {
                    lemma_char_seq_lt_total(old_ks[i as int], name@);
                }
                assert forall|a: int, b: int| 0 <= a < b < ks.len() implies char_seq_lt(
                    #[trigger] ks[a],
                    #[trigger] ks[b],
                ) by {
                    if b == i {
                    } else if a == i {
                        assert(ks[b] == old_ks[b - 1]);
                        if b - 1 > i {
                            assert(char_seq_lt(old_ks[i as int], old_ks[b - 1]));
                            lemma_char_seq_lt_transitive(name@, old_ks[i as int], old_ks[b - 1]);
                        }
                    } else if a < i && b > i {
                        assert(char_seq_lt(old_ks[a], name@));
                        assert(char_seq_lt(name@, ks[b])) by {
                            if b - 1 > i {
                                assert(char_seq_lt(old_ks[i as int], old_ks[b - 1]));
                                lemma_char_seq_lt_transitive(
                                    name@,
                                    old_ks[i as int],
                                    old_ks[b - 1],
                                );
                            }
                        }
                        lemma_char_seq_lt_transitive(old_ks[a], name@, ks[b]);
                    } else if a > i {
                        assert(ks[a] == old_ks[a - 1]);
                        assert(ks[b] == old_ks[b - 1]);
                    } else {
                        assert(ks[a] == old_ks[a]);
                        assert(ks[b] == old_ks[b]);
                    }
                }
                assert forall|k: Seq<char>| #[trigger]
                    old_view.insert(name@, v).dom().contains(k) implies self.view().dom().contains(
                    k,
                ) && self.view()[k] == old_view.insert(name@, v)[k] by {
                    if k == name@ {
                        self.lemma_index(i as int);
                    } else {
                        let j = old_ks.index_of(k);
                        if j < i {
                            assert(ks[j] == old_ks[j]);
                            self.lemma_index(j);
                        } else {
                            assert(ks[j + 1] == old_ks[j]);
                            self.lemma_index(j + 1);
                        }
                    }
                }
                assert forall|k: Seq<char>| #[trigger]
                    self.view().dom().contains(k) implies old_view.insert(name@, v).dom().contains(
                    k,
                ) by {
                    let j = ks.index_of(k);
                    if j < i {
                        assert(ks[j] == old_ks[j]);
                    } else if j > i {
                        assert(ks[j] == old_ks[j - 1]);
                    }
                }
                assert(self.view() =~= old_view.insert(name@, v));
            }
        }
    }

    /// Removes `name` (and its value) if it is in the table.
    pub fn remove(&mut self, name: &str)
        requires
            old(self).wf(),
        ensures
            final(self).wf(),
            final(self).view() == old(self).view().remove(name@),
    {
        let (found, i) = self.find(name);
        let ghost old_ks = self.key_seq();
        let ghost old_view = self.view();
        let ghost old_table = *self;
        if found {
            self.keys.remove(i);
            self.vals.remove(i);
            let ghost ks = self.key_seq();
            proof {
                assert(ks =~= old_ks.remove(i as int));
                assert forall|a: int, b: int| 0 <= a < b < ks.len() implies char_seq_lt(
                    #[trigger] ks[a],
                    #[trigger] ks[b],
                ) by {
                    if a < i {
                        assert(ks[a] == old_ks[a]);
                    } else {
                        assert(ks[a] == old_ks[a + 1]);
                    }
                    if b < i {
                        assert(ks[b] == old_ks[b]);
                    } else {
                        assert(ks[b] == old_ks[b + 1]);
                    }
                }
                lemma_strictly_sorted_no_duplicates(old_ks);
                assert forall|k: Seq<char>| #[trigger]
                    old_view.remove(name@).dom().contains(k) implies self.view().dom().contains(k)
                    && self.view()[k] == old_view.remove(name@)[k] by {
                    let j = old_ks.index_of(k);
                    old_table.lemma_index(j);
                    if j < i {
                        assert(ks[j] == old_ks[j]);
                        self.lemma_index(j);
                    } else {
                        assert(j != i);
                        assert(ks[j - 1] == old_ks[j]);
                        self.lemma_index(j - 1);
                    }
                }
                assert forall|k: Seq<char>| #[trigger]
                    self.view().dom().contains(k) implies old_view.remove(name@).dom().contains(
                    k,
                ) by {
                    let j = ks.index_of(k);
                    if j < i {
                        assert(ks[j] == old_ks[j]);
                        assert(old_ks[j] != old_ks[i as int]);
                    } else {
                        assert(ks[j] == old_ks[j + 1]);
                        assert(old_ks[j + 1] != old_ks[i as int]);
                    }
                }
                assert(self.view() =~= old_view.remove(name@));
            }
        } else {
            proof {
                assert(self.view() =~= old_view.remove(name@));
            }
        }
    }

    /// The names in the table, in strictly increasing code-point order.
    pub fn names(&self) -> (r: Vec<String>)
        requires
            self.wf(),
        ensures
            strictly_sorted(r@.map_values(|s: String| s@)),
            forall|k: Seq<char>|
                r@.map_values(|s: String| s@).contains(k) <==> self.view().dom().contains(k),
    {
        let r = self.keys.clone();
        proof {
            assert(r@.map_values(|s: String| s@) =~= self.key_seq());
        }
        r
    }
}

} // verus!

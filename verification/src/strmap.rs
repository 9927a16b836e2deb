//! `StrMap`: a string-to-string map kept as an association list sorted
//! strictly by key, so that every key occurs once and walking the entries
//! gives the keys in ascending order.

use vstd::prelude::*;

use crate::text::{
    chars_eq, chars_lt, chars_of, copy_string, lemma_lt_irreflexive, lemma_lt_total,
    lemma_lt_transitive, seq_lt,
};

verus! {

/// A finite map from strings to strings (backend params, entry metadata).
#[derive(Debug)]
pub struct StrMap {
    entries: Vec<(String, String)>,
}

/// Keys strictly ascending: sorted, and no key twice.
pub open spec fn strictly_sorted(keys: Seq<Seq<char>>) -> bool {
    forall|i: int, j: int| 0 <= i < j < keys.len() ==> seq_lt(#[trigger] keys[i], #[trigger] keys[j])
}

/// The map obtained by inserting `pairs` into `m` from first to last
/// (a later pair overrides an earlier one with the same key).
pub open spec fn insert_all(m: Map<Seq<char>, Seq<char>>, pairs: Seq<(Seq<char>, Seq<char>)>) -> Map<
    Seq<char>,
    Seq<char>,
>
    decreases pairs.len(),
{
    if pairs.len() == 0 {
        m
    } else {
        insert_all(m, pairs.drop_last()).insert(pairs.last().0, pairs.last().1)
    }
}

spec fn keys_of(es: Seq<(String, String)>) -> Seq<Seq<char>> {
    Seq::new(es.len(), |i: int| es[i].0@)
}

impl StrMap {
    /// The keys, in the order the entries are stored.
    pub closed spec fn keys(&self) -> Seq<Seq<char>> {
        keys_of(self.entries@)
    }

    /// The values, aligned with `keys`.
    pub closed spec fn vals(&self) -> Seq<Seq<char>> {
        Seq::new(self.entries@.len(), |i: int| self.entries@[i].1@)
    }

    /// The type invariant: keys strictly ascending.
    #[verifier::type_invariant]
    pub closed spec fn sorted_keys(&self) -> bool {
        strictly_sorted(self.keys())
    }

    /// Number of entries.
    pub closed spec fn size(&self) -> nat {
        self.entries@.len()
    }

    /// The stored entries walk the map in ascending key order: `keys` is
    /// strictly sorted, enumerates exactly the domain, and `vals` holds the
    /// value of each key.
    pub proof fn lemma_enumeration(&self)
        requires
            self.sorted_keys(),
        ensures
            self.keys().len() == self.size(),
            self.vals().len() == self.size(),
            strictly_sorted(self.keys()),
            forall|k: Seq<char>| #[trigger]
                self@.contains_key(k) <==> self.keys().contains(k),
            forall|i: int| 0 <= i < self.size() ==> #[trigger] self@[self.keys()[i]] == self.vals()[i],
            self@.dom().finite(),
            self@.dom().len() == self.size(),
    {
        assert forall|i: int| 0 <= i < self.size() implies #[trigger] self@[self.keys()[i]]
            == self.vals()[i] by {
            self.lemma_index_of(i);
        }
        self.lemma_dom();
    }

    proof fn lemma_index_of(&self, i: int)
        requires
            strictly_sorted(self.keys()),
            0 <= i < self.keys().len(),
        ensures
            self.keys().index_of(self.keys()[i]) == i,
    {
        let k = self.keys()[i];
        assert(self.keys().contains(k));
        let j = self.keys().index_of(k);
        assert(self.keys()[j] == k);
        if j < i {
            assert(seq_lt(self.keys()[j], self.keys()[i]));
            lemma_lt_irreflexive(k);
        } else if i < j {
            assert(seq_lt(self.keys()[i], self.keys()[j]));
            lemma_lt_irreflexive(k);
        }
    }

    proof fn lemma_dom(&self)
        requires
            strictly_sorted(self.keys()),
        ensures
            self@.dom().finite(),
            self@.dom().len() == self.size(),
    {
        assert forall|i: int, j: int|
            0 <= i < self.keys().len() && 0 <= j < self.keys().len() && i != j implies self.keys()[i]
            != self.keys()[j] by {
            if i < j {
                assert(seq_lt(self.keys()[i], self.keys()[j]));
                if self.keys()[i] == self.keys()[j] {
                    lemma_lt_irreflexive(self.keys()[i]);
                }
            } else {
                assert(seq_lt(self.keys()[j], self.keys()[i]));
                if self.keys()[i] == self.keys()[j] {
                    lemma_lt_irreflexive(self.keys()[i]);
                }
            }
        }
        assert(self.keys().no_duplicates());
        self.keys().unique_seq_to_set();
        assert(self@.dom() =~= self.keys().to_set());
    }

    /// An empty map.
    pub fn new() -> (m: Self)
        ensures
            m@ == Map::<Seq<char>, Seq<char>>::empty(),
            m.size() == 0,
    {
        let m = StrMap { entries: Vec::new() };
        assert(m@ =~= Map::<Seq<char>, Seq<char>>::empty());
        m
    }

    /// Number of entries.
    pub fn len(&self) -> (n: usize)
        ensures
            n == self.size(),
    {
        self.entries.len()
    }

    /// The `i`-th key in ascending order.
    pub fn key_at(&self, i: usize) -> (k: &String)
        requires
            i < self.size(),
        ensures
            k@ == self.keys()[i as int],
    {
        &self.entries[i].0
    }

    /// The value stored with the `i`-th key.
    pub fn value_at(&self, i: usize) -> (v: &String)
        requires
            i < self.size(),
        ensures
            v@ == self.vals()[i as int],
    {
        &self.entries[i].1
    }

    /// Position of the first key not below `key`, and whether it equals `key`.
    fn locate(&self, key: &Vec<char>) -> (r: (usize, bool))
        ensures
            r.0 <= self.size(),
            forall|i: int| 0 <= i < r.0 ==> seq_lt(#[trigger] self.keys()[i], key@),
            r.0 < self.size() ==> !seq_lt(self.keys()[r.0 as int], key@),
            r.1 == (r.0 < self.size() && self.keys()[r.0 as int] == key@),
    {
        let mut p: usize = 0;
        while p < self.entries.len()
            invariant
                p <= self.entries@.len(),
                forall|i: int| 0 <= i < p ==> seq_lt(#[trigger] self.keys()[i], key@),
            decreases self.entries@.len() - p,
        {
            let k = chars_of(self.entries[p].0.as_str());
            if !chars_lt(&k, key) {
                let same = chars_eq(&k, key);
                return (p, same);
            }
            p = p + 1;
        }
        (p, false)
    }

    /// The value stored under `key`, if any.
    pub fn get(&self, key: &str) -> (r: Option<&String>)
        ensures
            r is Some <==> self@.contains_key(key@),
            r matches Some(v) ==> v@ == self@[key@],
    {
        proof {
            use_type_invariant(self);
            self.lemma_enumeration();
        }
        let kv = chars_of(key);
        let (p, found) = self.locate(&kv);
        if found {
            Some(&self.entries[p].1)
        } else {
            proof {
                if self.keys().contains(key@) {
                    let j = self.keys().index_of(key@);
                    if j < p {
                        lemma_lt_irreflexive(key@);
                    } else if j > p {
                        use_type_invariant(self);
                        assert(seq_lt(self.keys()[p as int], self.keys()[j]));
                    }
                }
            }
            None
        }
    }

    /// Whether `key` is present.
    pub fn contains_key(&self, key: &str) -> (b: bool)
        ensures
            b == self@.contains_key(key@),
    {
        self.get(key).is_some()
    }

    /// Sets `key` to `value`, replacing any previous value.
    pub fn insert(&mut self, key: String, value: String)
        ensures
            final(self)@ == old(self)@.insert(key@, value@),
            final(self).size() == old(self).size() + if old(self)@.contains_key(key@) {
                0int
            } else {
                1int
            },
    {
        proof {
            use_type_invariant(&*self);
            self.lemma_enumeration();
        }
        let kv = chars_of(key.as_str());
        let (p, found) = self.locate(&kv);
        let ghost old_keys = self.keys();
        let ghost old_vals = self.vals();
        let ghost old_map = self@;
        if found {
            let mut es: Vec<(String, String)> = Vec::new();
            std::mem::swap(&mut es, &mut self.entries);
            es.set(p, (key, value));
            assert(keys_of(es@) =~= old_keys);
            self.entries = es;
            proof {
                assert(self.keys() =~= old_keys);
                assert(self.vals() =~= old_vals.update(p as int, value@));
                assert(self@ =~= old_map.insert(key@, value@)) by {
                    assert forall|k: Seq<char>| #[trigger] self@.contains_key(k) implies self@[k]
                        == old_map.insert(key@, value@)[k] by {
                        let j = self.keys().index_of(k);
                        self.lemma_index_of(j);
                    }
                }
            }
        } else {
            let mut es: Vec<(String, String)> = Vec::new();
            std::mem::swap(&mut es, &mut self.entries);
            es.insert(p, (key, value));
            proof {
                let nk = keys_of(es@);
                assert(nk =~= old_keys.insert(p as int, key@));
                assert(strictly_sorted(nk)) by {
                    assert forall|i: int, j: int|
                        0 <= i < j < nk.len() implies seq_lt(
                        #[trigger] nk[i],
                        #[trigger] nk[j],
                    ) by {
                        if j < p {
                        } else if j == p {
                        } else if i < p {
                            assert(nk[j] == old_keys[j - 1]);
                            assert(seq_lt(key@, old_keys[p as int])) by {
                                lemma_lt_total(key@, old_keys[p as int]);
                            }
                            if j - 1 > p {
                                assert(seq_lt(old_keys[p as int], old_keys[j - 1]));
                                lemma_lt_transitive(key@, old_keys[p as int], old_keys[j - 1]);
                            }
                            lemma_lt_transitive(old_keys[i], key@, old_keys[j - 1]);
                        } else if i == p {
                            assert(seq_lt(key@, old_keys[p as int])) by {
                                lemma_lt_total(key@, old_keys[p as int]);
                            }
                            if j - 1 > p {
                                assert(seq_lt(old_keys[p as int], old_keys[j - 1]));
                                lemma_lt_transitive(key@, old_keys[p as int], old_keys[j - 1]);
                            }
                        } else {
                            assert(nk[i] == old_keys[i - 1]);
                            assert(nk[j] == old_keys[j - 1]);
                        }
                    }
                }
            }
            self.entries = es;
            proof {
                assert(self.keys() =~= old_keys.insert(p as int, key@));
                assert(self.vals() =~= old_vals.insert(p as int, value@));
                assert(!old_keys.contains(key@)) by {
                    if old_keys.contains(key@) {
                        let j = old_keys.index_of(key@);
                        if j < p {
                            lemma_lt_irreflexive(key@);
                        } else if j > p {
                            assert(seq_lt(old_keys[p as int], old_keys[j]));
                        }
                    }
                }
                assert(self@ =~= old_map.insert(key@, value@)) by {
                    assert forall|k: Seq<char>|
                        old_map.insert(key@, value@).contains_key(k) implies #[trigger] self@.contains_key(k) by {
                        if k != key@ {
                            assert(old_map.contains_key(k));
                            assert(old_keys.contains(k));
                            let j = old_keys.index_of(k);
                            assert(old_keys[j] == k);
                            if j >= p {
                                assert(self.keys()[j + 1] == k);
                            } else {
                                assert(self.keys()[j] == k);
                            }
                        } else {
                            assert(self.keys()[p as int] == key@);
                        }
                    }
                    assert forall|k: Seq<char>| #[trigger] self@.contains_key(k) implies self@[k]
                        == old_map.insert(key@, value@)[k] by {
                        let j = self.keys().index_of(k);
                        self.lemma_index_of(j);
                        if j < p {
                            assert(old_keys[j] == k);
                            assert(old_keys.contains(k));
                            let jj = old_keys.index_of(k);
                            assert(old_keys[jj] == k);
                        } else if j > p {
                            assert(old_keys[j - 1] == k);
                            assert(old_keys.contains(k));
                        }
                    }
                }
            }
        }
    }
}

impl Default for StrMap {
    fn default() -> (m: Self)
        ensures
            m@ == Map::<Seq<char>, Seq<char>>::empty(),
    {
        StrMap::new()
    }
}

impl View for StrMap {
    type V = Map<Seq<char>, Seq<char>>;

    closed spec fn view(&self) -> Map<Seq<char>, Seq<char>> {
        Map::new(
            |k: Seq<char>| self.keys().contains(k),
            |k: Seq<char>| self.vals()[self.keys().index_of(k)],
        )
    }
}

/// Builds a map from `(key, value)` pairs; a later pair wins over an earlier
/// pair with the same key.
pub fn map_from_pairs(pairs: Vec<(String, String)>) -> (m: StrMap)
    ensures
        m@ == insert_all(Map::empty(), pair_views(pairs@)),
{
    let mut m = StrMap::new();
    for i in 0..pairs.len()
        invariant
            m@ == insert_all(Map::empty(), pair_views(pairs@).take(i as int)),
    {
        let k = copy_string(&pairs[i].0);
        let v = copy_string(&pairs[i].1);
        m.insert(k, v);
        assert(pair_views(pairs@).take(i + 1).drop_last() == pair_views(pairs@).take(i as int));
    }
    assert(pair_views(pairs@).take(pairs.len() as int) == pair_views(pairs@));
    m
}

/// The views of a list of string pairs.
pub open spec fn pair_views(pairs: Seq<(String, String)>) -> Seq<(Seq<char>, Seq<char>)> {
    Seq::new(pairs.len(), |i: int| (pairs[i].0@, pairs[i].1@))
}

} // verus!

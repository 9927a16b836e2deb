//! Transporter registry: maps protocol names to transporter sources.
//!
//! Built-in backends and plugins share one namespace; a later registration
//! under a name replaces the earlier one, so a plugin may override a
//! built-in backend. The registry is generic over what it stores for each
//! name (the CLI stores factories and loaded plugin instances).

use vstd::prelude::*;

use crate::error::{is_unknown_transporter, AppError};
use crate::strmap::strictly_sorted;
use crate::text::{
    chars_eq, chars_lt, chars_of, join, join_strings, lemma_lt_irreflexive, lemma_lt_total,
    lemma_lt_transitive, owned, seq_lt, string_views,
};

verus! {

/// `std::path::PathBuf`, carried opaquely.
#[verifier::external_type_specification]
#[verifier::external_body]
pub struct ExPathBuf(std::path::PathBuf);

/// `PathBuf::clone`: an equal path.
#[verifier::external_body]
fn clone_path(p: &std::path::PathBuf) -> (r: std::path::PathBuf)
    ensures
        r == *p,
{
    p.clone()
}

/// Where a registration came from.
#[derive(Debug)]
pub enum Origin {
    /// Compiled into this binary.
    BuiltIn,
    /// Loaded from a plugin file, with its full path.
    Plugin(std::path::PathBuf),
}

impl Origin {
    /// A copy of this origin.
    pub fn duplicate(&self) -> (r: Origin)
        ensures
            r == *self,
    {
        match self {
            Origin::BuiltIn => Origin::BuiltIn,
            Origin::Plugin(p) => Origin::Plugin(clone_path(p)),
        }
    }
}

struct Registration<E> {
    name: String,
    entry: E,
    origin: Origin,
}

/// Maps protocol names (`"adb-scrcpy"`, ...) to transporter sources,
/// kept in ascending name order.
pub struct TransporterRegistry<E> {
    registrations: Vec<Registration<E>>,
}

spec fn names_of<E>(rs: Seq<Registration<E>>) -> Seq<Seq<char>> {
    Seq::new(rs.len(), |i: int| rs[i].name@)
}

impl<E> TransporterRegistry<E> {
    /// Registered names, in storage order.
    pub closed spec fn name_seq(&self) -> Seq<Seq<char>> {
        names_of(self.registrations@)
    }

    /// `(entry, origin)` of each registration, aligned with `name_seq`.
    pub closed spec fn item_seq(&self) -> Seq<(E, Origin)> {
        Seq::new(
            self.registrations@.len(),
            |i: int| (self.registrations@[i].entry, self.registrations@[i].origin),
        )
    }

    /// The type invariant: names strictly ascending.
    #[verifier::type_invariant]
    pub closed spec fn sorted_names(&self) -> bool {
        strictly_sorted(self.name_seq())
    }

    /// The registrations as a map from name to `(entry, origin)`.
    pub closed spec fn view(&self) -> Map<Seq<char>, (E, Origin)> {
        Map::new(
            |k: Seq<char>| self.name_seq().contains(k),
            |k: Seq<char>| self.item_seq()[self.name_seq().index_of(k)],
        )
    }

    proof fn lemma_index_of(&self, i: int)
        requires
            strictly_sorted(self.name_seq()),
            0 <= i < self.name_seq().len(),
        ensures
            self.name_seq().index_of(self.name_seq()[i]) == i,
    {
        let k = self.name_seq()[i];
        assert(self.name_seq().contains(k));
        let j = self.name_seq().index_of(k);
        if j < i {
            assert(seq_lt(self.name_seq()[j], self.name_seq()[i]));
            lemma_lt_irreflexive(k);
        } else if i < j {
            assert(seq_lt(self.name_seq()[i], self.name_seq()[j]));
            lemma_lt_irreflexive(k);
        }
    }

    /// The storage order lists exactly the registered names, ascending.
    pub proof fn lemma_names(&self)
        requires
            self.sorted_names(),
        ensures
            strictly_sorted(self.name_seq()),
            self.item_seq().len() == self.name_seq().len(),
            forall|k: Seq<char>| #[trigger] self.view().contains_key(k) <==> self.name_seq().contains(k),
            forall|i: int|
                0 <= i < self.name_seq().len() ==> #[trigger] self.view()[self.name_seq()[i]]
                    == self.item_seq()[i],
    {
        assert forall|i: int| 0 <= i < self.name_seq().len() implies #[trigger] self.view()[
            self.name_seq()[i]] == self.item_seq()[i] by {
            self.lemma_index_of(i);
        }
    }

    /// An empty registry.
    pub fn new() -> (r: Self)
        ensures
            r.view() == Map::<Seq<char>, (E, Origin)>::empty(),
    {
        let r = TransporterRegistry { registrations: Vec::new() };
        assert(r.view() =~= Map::<Seq<char>, (E, Origin)>::empty());
        r
    }

    fn locate(&self, key: &Vec<char>) -> (r: (usize, bool))
        ensures
            r.0 <= self.name_seq().len(),
            forall|i: int| 0 <= i < r.0 ==> seq_lt(#[trigger] self.name_seq()[i], key@),
            r.0 < self.name_seq().len() ==> !seq_lt(self.name_seq()[r.0 as int], key@),
            r.1 == (r.0 < self.name_seq().len() && self.name_seq()[r.0 as int] == key@),
    {
        let mut p: usize = 0;
        while p < self.registrations.len()
            invariant
                p <= self.registrations@.len(),
                forall|i: int| 0 <= i < p ==> seq_lt(#[trigger] self.name_seq()[i], key@),
            decreases self.registrations@.len() - p,
        {
            let k = chars_of(self.registrations[p].name.as_str());
            if !chars_lt(&k, key) {
                let same = chars_eq(&k, key);
                return (p, same);
            }
            p = p + 1;
        }
        (p, false)
    }

    fn put(&mut self, name: &str, entry: E, origin: Origin)
        ensures
            final(self).view() == old(self).view().insert(name@, (entry, origin)),
    {
        proof {
            use_type_invariant(&*self);
            self.lemma_names();
        }
        let kv = chars_of(name);
        let (p, found) = self.locate(&kv);
        let ghost old_names = self.name_seq();
        let ghost old_items = self.item_seq();
        let ghost old_map = self.view();
        let reg = Registration { name: owned(name), entry, origin };
        let mut rs: Vec<Registration<E>> = Vec::new();
        std::mem::swap(&mut rs, &mut self.registrations);
        if found {
            rs.set(p, reg);
            assert(names_of(rs@) =~= old_names);
            self.registrations = rs;
            proof {
                assert(self.item_seq() =~= old_items.update(p as int, (entry, origin)));
                assert(self.view() =~= old_map.insert(name@, (entry, origin))) by {
                    assert forall|k: Seq<char>| #[trigger] self.view().contains_key(k) implies self.view()[k]
                        == old_map.insert(name@, (entry, origin))[k] by {
                        let j = self.name_seq().index_of(k);
                        self.lemma_index_of(j);
                    }
                }
            }
        } else {
            rs.insert(p, reg);
            proof {
                let nk = names_of(rs@);
                assert(nk =~= old_names.insert(p as int, name@));
                assert(strictly_sorted(nk)) by {
                    assert forall|i: int, j: int|
                        0 <= i < j < nk.len() implies seq_lt(#[trigger] nk[i], #[trigger] nk[j]) by {
                        if j < p {
                        } else if j == p {
                        } else if i < p {
                            assert(seq_lt(name@, old_names[p as int])) by {
                                lemma_lt_total(name@, old_names[p as int]);
                            }
                            if j - 1 > p {
                                assert(seq_lt(old_names[p as int], old_names[j - 1]));
                                lemma_lt_transitive(name@, old_names[p as int], old_names[j - 1]);
                            }
                            lemma_lt_transitive(old_names[i], name@, old_names[j - 1]);
                        } else if i == p {
                            assert(seq_lt(name@, old_names[p as int])) by {
                                lemma_lt_total(name@, old_names[p as int]);
                            }
                            if j - 1 > p {
                                assert(seq_lt(old_names[p as int], old_names[j - 1]));
                                lemma_lt_transitive(name@, old_names[p as int], old_names[j - 1]);
                            }
                        } else {
                            assert(nk[i] == old_names[i - 1]);
                            assert(nk[j] == old_names[j - 1]);
                        }
                    }
                }
            }
            self.registrations = rs;
            proof {
                assert(self.name_seq() =~= old_names.insert(p as int, name@));
                assert(self.item_seq() =~= old_items.insert(p as int, (entry, origin)));
                assert(!old_names.contains(name@)) by {
                    if old_names.contains(name@) {
                        let j = old_names.index_of(name@);
                        if j < p {
                            lemma_lt_irreflexive(name@);
                        } else if j > p {
                            assert(seq_lt(old_names[p as int], old_names[j]));
                        }
                    }
                }
                assert(self.view() =~= old_map.insert(name@, (entry, origin))) by {
                    assert forall|k: Seq<char>|
                        old_map.insert(name@, (entry, origin)).contains_key(k) implies #[trigger] self.view().contains_key(k) by {
                        if k != name@ {
                            assert(old_map.contains_key(k));
                            assert(old_names.contains(k));
                            let j = old_names.index_of(k);
                            assert(old_names[j] == k);
                            if j >= p {
                                assert(self.name_seq()[j + 1] == k);
                            } else {
                                assert(self.name_seq()[j] == k);
                            }
                        } else {
                            assert(self.name_seq()[p as int] == name@);
                        }
                    }
                    assert forall|k: Seq<char>| #[trigger] self.view().contains_key(k) implies self.view()[k]
                        == old_map.insert(name@, (entry, origin))[k] by {
                        let j = self.name_seq().index_of(k);
                        self.lemma_index_of(j);
                        if j < p {
                            assert(old_names[j] == k);
                            assert(old_names.contains(k));
                        } else if j > p {
                            assert(old_names[j - 1] == k);
                            assert(old_names.contains(k));
                        }
                    }
                }
            }
        }
    }

    /// Register a built-in backend under `name`; a later registration under
    /// the same name replaces it.
    pub fn register(&mut self, name: &str, factory: E)
        ensures
            final(self).view() == old(self).view().insert(name@, (factory, Origin::BuiltIn)),
    {
        self.put(name, factory, Origin::BuiltIn);
    }

    /// Register a loaded plugin with the file it came from; a later
    /// registration under the same name replaces it.
    pub fn register_plugin(&mut self, name: &str, instance: E, path: std::path::PathBuf)
        ensures
            final(self).view() == old(self).view().insert(name@, (instance, Origin::Plugin(path))),
    {
        self.put(name, instance, Origin::Plugin(path));
    }

    /// All registered names, sorted.
    pub fn names(&self) -> (r: Vec<&str>)
        ensures
            crate::adb::str_views(r@) == self.name_seq(),
            strictly_sorted(self.name_seq()),
            forall|k: Seq<char>| #[trigger] self.view().contains_key(k) <==> self.name_seq().contains(k),
    {
        proof {
            use_type_invariant(self);
            self.lemma_names();
        }
        let mut r: Vec<&str> = Vec::new();
        for i in 0..self.registrations.len()
            invariant
                crate::adb::str_views(r@) == self.name_seq().take(i as int),
        {
            let s = self.registrations[i].name.as_str();
            let ghost prev = crate::adb::str_views(r@);
            r.push(s);
            assert(crate::adb::str_views(r@) =~= prev.push(s@));
            assert(self.name_seq().take(i + 1) =~= self.name_seq().take(i as int).push(
                self.registrations@[i as int].name@,
            ));
        }
        assert(self.name_seq().take(self.registrations.len() as int) =~= self.name_seq());
        r
    }

    /// Every registration as `(name, origin)`, sorted by name.
    pub fn entries(&self) -> (r: Vec<(String, Origin)>)
        ensures
            r@.len() == self.name_seq().len(),
            strictly_sorted(self.name_seq()),
            forall|i: int|
                0 <= i < r@.len() ==> (#[trigger] r@[i]).0@ == self.name_seq()[i] && r@[i].1
                    == self.view()[self.name_seq()[i]].1,
            forall|k: Seq<char>| #[trigger] self.view().contains_key(k) <==> self.name_seq().contains(k),
    {
        proof {
            use_type_invariant(self);
            self.lemma_names();
        }
        let mut r: Vec<(String, Origin)> = Vec::new();
        for i in 0..self.registrations.len()
            invariant
                r@.len() == i,
                self.item_seq().len() == self.name_seq().len(),
                forall|i: int|
                    0 <= i < self.name_seq().len() ==> #[trigger] self.view()[self.name_seq()[i]]
                        == self.item_seq()[i],
                forall|j: int|
                    0 <= j < i ==> (#[trigger] r@[j]).0@ == self.name_seq()[j] && r@[j].1
                        == self.view()[self.name_seq()[j]].1,
        {
            let reg = &self.registrations[i];
            r.push((owned(reg.name.as_str()), reg.origin.duplicate()));
        }
        r
    }

    /// The source registered under `name`; an unknown name reports every
    /// registered name (sorted, comma-separated).
    pub fn get(&self, name: &str) -> (r: Result<&E, AppError>)
        ensures
            r is Ok <==> self.view().contains_key(name@),
            r matches Ok(e) ==> *e == self.view()[name@].0,
            r matches Err(e) ==> is_unknown_transporter(e, name@, join(self.name_seq(), ", "@)),
    {
        proof {
            use_type_invariant(self);
            self.lemma_names();
        }
        let kv = chars_of(name);
        let (p, found) = self.locate(&kv);
        if found {
            Ok(&self.registrations[p].entry)
        } else {
            proof {
                if self.name_seq().contains(name@) {
                    let j = self.name_seq().index_of(name@);
                    if j < p {
                        lemma_lt_irreflexive(name@);
                    } else if j > p {
                        assert(seq_lt(self.name_seq()[p as int], self.name_seq()[j]));
                    }
                }
            }
            let mut all: Vec<String> = Vec::new();
            for i in 0..self.registrations.len()
                invariant
                    string_views(all@) == self.name_seq().take(i as int),
            {
                let s = owned(self.registrations[i].name.as_str());
                let ghost prev = string_views(all@);
                all.push(s);
                assert(string_views(all@) =~= prev.push(s@));
                assert(self.name_seq().take(i + 1) =~= self.name_seq().take(i as int).push(
                    self.registrations@[i as int].name@,
                ));
            }
            assert(self.name_seq().take(self.registrations.len() as int) =~= self.name_seq());
            Err(AppError::UnknownTransporter { name: owned(name), available: join_strings(&all, ", ") })
        }
    }
}

/// A later registration under a name replaces the earlier one, whichever
/// kind (built-in or plugin) either was, and leaves every other name as it
/// was: stated over three successive registry states, each obtained from
/// the previous one by a registration (what `register` and
/// `register_plugin` ensure).
pub proof fn law_later_registration_wins<E>(
    r0: TransporterRegistry<E>,
    r1: TransporterRegistry<E>,
    r2: TransporterRegistry<E>,
    name: Seq<char>,
    first: (E, Origin),
    second: (E, Origin),
    other: Seq<char>,
)
    requires
        r1.view() == r0.view().insert(name, first),
        r2.view() == r1.view().insert(name, second),
        other != name,
    ensures
        r2.view().contains_key(name),
        r2.view()[name] == second,
        r2.view().contains_key(other) == r0.view().contains_key(other),
        r0.view().contains_key(other) ==> r2.view()[other] == r0.view()[other],
{
}

impl<E> Default for TransporterRegistry<E> {
    /// An empty registry.
    fn default() -> (r: Self)
        ensures
            r.view() == Map::<Seq<char>, (E, Origin)>::empty(),
    {
        TransporterRegistry::new()
    }
}

} // verus!

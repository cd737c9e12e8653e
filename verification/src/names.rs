//! A map from names to values.
use crate::text::same_text;
use vstd::prelude::*;

verus! {

/// A map whose keys are names; no name occurs twice.
#[derive(Debug, PartialEq, Eq)]
pub struct NameMap<V> {
    entries: Vec<(String, V)>,
}

/// The names of the entries, in the order in which they stand.
spec fn names_of<V>(entries: Seq<(String, V)>) -> Seq<Seq<char>> {
    Seq::new(entries.len(), |i: int| entries[i].0@)
}

impl<V> View for NameMap<V> {
    type V = Map<Seq<char>, V>;

    closed spec fn view(&self) -> Map<Seq<char>, V> {
        let entries = self.entries@;
        Map::new(
            |name: Seq<char>| names_of(entries).contains(name),
            |name: Seq<char>| entries[names_of(entries).index_of(name)].1,
        )
    }
}

impl<V> NameMap<V> {
    #[verifier::type_invariant]
    spec fn names_differ(self) -> bool {
        names_of(self.entries@).no_duplicates()
    }

    /// The names, in the order in which the entries stand.
    pub closed spec fn names(&self) -> Seq<Seq<char>> {
        names_of(self.entries@)
    }

    proof fn lemma_entry(&self, at: int)
        requires
            self.names_differ(),
            0 <= at < self.entries@.len(),
        ensures
            self@.contains_key(self.entries@[at].0@),
            self@[self.entries@[at].0@] == self.entries@[at].1,
    {
        let names = names_of(self.entries@);
        assert(names[at] == self.entries@[at].0@);
        assert(names.contains(names[at]));
        let found = names.index_of(names[at]);
        assert(names[found] == names[at]);
    }

    /// The empty map.
    pub fn new() -> (map: NameMap<V>)
        ensures
            map@ == Map::<Seq<char>, V>::empty(),
    {
        let map = NameMap { entries: Vec::new() };
        assert(map@ =~= Map::<Seq<char>, V>::empty());
        map
    }

    /// The number of entries.
    pub fn len(&self) -> (count: usize)
        ensures
            count == self.names().len(),
            self.names().no_duplicates(),
            forall|name: Seq<char>| #[trigger]
                self@.contains_key(name) <==> self.names().contains(name),
    {
        proof {
            use_type_invariant(&*self);
        }
        self.entries.len()
    }

    /// The entry that stands at a position.
    pub fn entry(&self, at: usize) -> (entry: (&String, &V))
        requires
            at < self.names().len(),
        ensures
            entry.0@ == self.names()[at as int],
            self@.contains_key(entry.0@),
            self@[entry.0@] == *entry.1,
    {
        proof {
            use_type_invariant(&*self);
            self.lemma_entry(at as int);
        }
        (&self.entries[at].0, &self.entries[at].1)
    }

    fn position(&self, name: &str) -> (found: Option<usize>)
        ensures
            found matches Some(at) ==> at < self.entries@.len() && self.entries@[at as int].0@
                == name@,
            found is None ==> forall|i: int|
                0 <= i < self.entries@.len() ==> (#[trigger] self.entries@[i]).0@ != name@,
    {
        let mut at: usize = 0;
        while at < self.entries.len()
            invariant
                at <= self.entries@.len(),
                forall|i: int| 0 <= i < at ==> (#[trigger] self.entries@[i]).0@ != name@,
            decreases self.entries@.len() - at,
        {
            if same_text(&self.entries[at].0, name) {
                return Some(at);
            }
            at = at + 1;
        }
        None
    }

    /// The value of a name.
    pub fn get(&self, name: &str) -> (value: Option<&V>)
        ensures
            value is Some <==> self@.contains_key(name@),
            value matches Some(value) ==> *value == self@[name@],
    {
        proof {
            use_type_invariant(&*self);
        }
        match self.position(name) {
            Some(at) => {
                proof {
                    self.lemma_entry(at as int);
                }
                Some(&self.entries[at].1)
            },
            None => None,
        }
    }

    /// Whether a name has a value.
    pub fn contains(&self, name: &str) -> (contains: bool)
        ensures
            contains == self@.contains_key(name@),
    {
        self.get(name).is_some()
    }

    /// Gives a name a value, in place of the one it has.
    pub fn insert(&mut self, name: String, value: V)
        ensures
            final(self)@ == old(self)@.insert(name@, value),
    {
        proof {
            use_type_invariant(&*self);
        }
        let found = self.position(&name);
        let mut entries: Vec<(String, V)> = Vec::new();
        std::mem::swap(&mut entries, &mut self.entries);
        let ghost before = entries@;
        match found {
            Some(at) => {
                entries.set(at, (name, value));
                assert(names_of(entries@) =~= names_of(before));
            },
            None => {
                entries.push((name, value));
                assert(names_of(entries@) =~= names_of(before).push(name@));
                assert(!names_of(before).contains(name@)) by {
                    assert(forall|i: int|
                        0 <= i < before.len() ==> names_of(before)[i] == before[i].0@);
                }
            },
        }
        self.entries = entries;
        proof {
            let expected = old(self)@.insert(name@, value);
            assert forall|key: Seq<char>| self@.contains_key(key) <==> expected.contains_key(
                key,
            ) by {
                if found is None {
                    let names = names_of(self.entries@);
                    let last = names.len() - 1;
                    assert(names[last] == name@);
                    if names_of(before).contains(key) {
                        let i = names_of(before).index_of(key);
                        assert(names[i] == key);
                    }
                    if names.contains(key) && key != name@ {
                        let i = names.index_of(key);
                        assert(names_of(before)[i] == key);
                    }
                } else {
                    let at = found->0;
                    assert(names_of(before)[at as int] == name@);
                }
            }
            assert forall|key: Seq<char>| self@.contains_key(key) implies self@[key]
                == expected[key] by {
                let names = names_of(self.entries@);
                let i = names.index_of(key);
                assert(names.contains(key));
                assert(self.entries@[i].0@ == key);
                self.lemma_entry(i);
                if key == name@ {
                    if found is None {
                        self.lemma_entry(names.len() - 1);
                    } else {
                        self.lemma_entry(found->0 as int);
                    }
                } else {
                    assert(before[i] == self.entries@[i]);
                    old(self).lemma_entry(i);
                }
            }
            assert(self@ =~= expected);
        }
    }
}

} // verus!

//! A map with strings as keys, which is walked in the order in which its keys
//! came in.

use vstd::prelude::*;

use crate::assoc;

verus! {

/// A map from strings to values of type `V`.
#[derive(Debug)]
pub struct StringMap<V> {
    entries: Vec<(String, V)>,
}

/// The entries of a list, with what their keys hold.
spec fn keyed<V>(entries: Seq<(String, V)>) -> Seq<(Seq<char>, V)> {
    entries.map_values(|entry: (String, V)| (entry.0@, entry.1))
}

impl<V> View for StringMap<V> {
    type V = Map<Seq<char>, V>;

    open spec fn view(&self) -> Map<Seq<char>, V> {
        assoc::as_map(self.entries())
    }
}

impl<V> StringMap<V> {
    /// The keys with their values, in the order in which the map is walked.
    pub closed spec fn entries(&self) -> Seq<(Seq<char>, V)> {
        keyed(self.entries@)
    }

    #[verifier::type_invariant]
    spec fn well_formed(self) -> bool {
        assoc::distinct_keys(keyed(self.entries@))
    }

    /// An empty map.
    pub fn new() -> (map: Self)
        ensures
            map.entries() == Seq::<(Seq<char>, V)>::empty(),
            map@ == Map::<Seq<char>, V>::empty(),
    {
        let map = StringMap { entries: Vec::new() };
        assert(map.entries() =~= Seq::empty());
        assert(map@ =~= Map::empty());
        map
    }

    /// How many keys the map has.
    pub fn len(&self) -> (len: usize)
        ensures
            len == self.entries().len(),
            len == self@.len(),
            assoc::distinct_keys(self.entries()),
    {
        proof {
            use_type_invariant(self);
            assoc::lemma_size(self.entries());
        }
        self.entries.len()
    }

    /// Whether the map has no key.
    pub fn is_empty(&self) -> (empty: bool)
        ensures
            empty == (self.entries().len() == 0),
            empty == (self@ == Map::<Seq<char>, V>::empty()),
    {
        proof {
            use_type_invariant(self);
            if self.entries().len() == 0 {
                assert(self@ =~= Map::empty());
            } else {
                assoc::lemma_entry(self.entries(), 0);
            }
        }
        self.entries.len() == 0
    }

    /// The key and the value at a place of the walk.
    pub fn entry(&self, place: usize) -> (entry: (&String, &V))
        requires
            place < self.entries().len(),
        ensures
            (entry.0@, *entry.1) == self.entries()[place as int],
            self@.contains_key(entry.0@),
            self@[entry.0@] == *entry.1,
    {
        proof {
            use_type_invariant(self);
            assoc::lemma_entry(self.entries(), place as int);
        }
        let found = &self.entries[place];
        (&found.0, &found.1)
    }

    fn place_of(entries: &Vec<(String, V)>, key: &String) -> (place: Option<usize>)
        ensures
            match place {
                Some(at) => at < entries@.len() && entries@[at as int].0@ == key@,
                None => !assoc::has_key(keyed(entries@), key@),
            },
    {
        for at in 0..entries.len()
            invariant
                forall|i: int| 0 <= i < at ==> (#[trigger] entries@[i]).0@ != key@,
        {
            if entries[at].0 == *key {
                return Some(at);
            }
        }
        assert(forall|i: int|
            0 <= i < entries@.len() ==> (#[trigger] keyed(entries@)[i]).0 == entries@[i].0@);
        None
    }

    /// The value of a key.
    pub fn get(&self, key: &String) -> (value: Option<&V>)
        ensures
            match value {
                Some(found) => self@.contains_key(key@) && self@[key@] == *found,
                None => !self@.contains_key(key@),
            },
    {
        proof {
            use_type_invariant(self);
        }
        match Self::place_of(&self.entries, key) {
            Some(at) => {
                proof {
                    assoc::lemma_entry(self.entries(), at as int);
                }
                Some(&self.entries[at].1)
            },
            None => None,
        }
    }

    /// Sets the value of a key and gives back the value that it had.
    pub fn insert(&mut self, key: String, value: V) -> (replaced: Option<V>)
        ensures
            final(self)@ == old(self)@.insert(key@, value),
            match replaced {
                Some(was) => old(self)@.contains_key(key@) && was == old(self)@[key@],
                None => !old(self)@.contains_key(key@),
            },
            replaced is None ==> final(self).entries() == old(self).entries().push((key@, value)),
            replaced is Some ==> final(self).entries() == old(self).entries().update(
                assoc::position(old(self).entries(), key@),
                (key@, value),
            ),
    {
        proof {
            use_type_invariant(&*self);
        }
        let ghost before = keyed(self.entries@);
        let mut entries: Vec<(String, V)> = Vec::new();
        std::mem::swap(&mut entries, &mut self.entries);
        match Self::place_of(&entries, &key) {
            Some(at) => {
                proof {
                    assoc::lemma_entry(before, at as int);
                    assoc::lemma_update(before, at as int, value);
                }
                let was = entries.remove(at);
                entries.insert(at, (was.0, value));
                assert(keyed(entries@) =~= before.update(at as int, (before[at as int].0, value)));
                self.entries = entries;
                Some(was.1)
            },
            None => {
                let ghost key_text = key@;
                proof {
                    assoc::lemma_insert(before, before.len() as int, key_text, value);
                    assert(before.insert(before.len() as int, (key_text, value)) =~= before.push(
                        (key_text, value),
                    ));
                }
                entries.push((key, value));
                assert(keyed(entries@) =~= before.push((key_text, value)));
                self.entries = entries;
                None
            },
        }
    }
}

impl<V: Clone> Clone for StringMap<V> {
    fn clone(&self) -> (copy: Self)
        ensures
            copy.entries().len() == self.entries().len(),
            forall|i: int|
                0 <= i < self.entries().len() ==> (#[trigger] copy.entries()[i]).0
                    == self.entries()[i].0 && cloned(self.entries()[i].1, copy.entries()[i].1),
    {
        proof {
            use_type_invariant(self);
        }
        let mut entries: Vec<(String, V)> = Vec::new();
        for at in 0..self.entries.len()
            invariant
                entries@.len() == at,
                forall|i: int|
                    0 <= i < at ==> (#[trigger] entries@[i]).0@ == self.entries@[i].0@ && cloned(
                        self.entries@[i].1,
                        entries@[i].1,
                    ),
        {
            entries.push((self.entries[at].0.clone(), self.entries[at].1.clone()));
        }
        assert(forall|i: int|
            0 <= i < entries@.len() ==> (#[trigger] keyed(entries@)[i]).0 == keyed(
                self.entries@,
            )[i].0);
        StringMap { entries }
    }
}

impl<V> Default for StringMap<V> {
    fn default() -> (map: Self)
        ensures
            map.entries() == Seq::<(Seq<char>, V)>::empty(),
            map@ == Map::<Seq<char>, V>::empty(),
    {
        Self::new()
    }
}

} // verus!

//! A small map from names to values, kept in the order in which the names
//! were first set.

use vstd::prelude::*;

verus! {

spec fn names_of<V>(entries: Seq<(String, V)>) -> Seq<Seq<char>> {
    entries.map_values(|e: (String, V)| e.0@)
}

spec fn values_of<V>(entries: Seq<(String, V)>) -> Seq<V> {
    entries.map_values(|e: (String, V)| e.1)
}

/// A map from names to values. No name occurs twice; a name that is set
/// again keeps its place.
pub struct NameMap<V> {
    entries: Vec<(String, V)>,
}

impl<V> NameMap<V> {
    /// The names, in the order in which they were first set.
    pub closed spec fn names(&self) -> Seq<Seq<char>> {
        names_of(self.entries@)
    }

    /// The values, each at the index of its name.
    pub closed spec fn values(&self) -> Seq<V> {
        values_of(self.entries@)
    }

    /// No name occurs twice, and each name has its value.
    #[verifier::type_invariant]
    pub open spec fn well_formed(&self) -> bool {
        &&& self.names().no_duplicates()
        &&& self.names().len() == self.values().len()
    }

    /// The map itself, without the order.
    pub open spec fn as_map(&self) -> Map<Seq<char>, V> {
        map_of(self.names(), self.values())
    }

    /// Setting a name in the lists sets it in the map.
    proof fn lemma_insert(names: Seq<Seq<char>>, values: Seq<V>, name: Seq<char>, value: V)
        requires
            names.no_duplicates(),
            names.len() == values.len(),
        ensures
            names.contains(name) ==> map_of(names, values.update(names.index_of(name), value))
                == map_of(names, values).insert(name, value),
            !names.contains(name) ==> map_of(names.push(name), values.push(value)) == map_of(
                names,
                values,
            ).insert(name, value),
            !names.contains(name) ==> names.push(name).no_duplicates(),
    {
        if names.contains(name) {
            let i = names.index_of(name);
            let left = map_of(names, values.update(i, value));
            let right = map_of(names, values).insert(name, value);
            assert forall|n: Seq<char>| left.contains_key(n) implies left[n] == right[n] by {
                let j = names.index_of(n);
                assert(names[j] == n);
            }
            assert(left =~= right);
        } else {
            let pushed = names.push(name);
            let left = map_of(pushed, values.push(value));
            let right = map_of(names, values).insert(name, value);
            assert(pushed[names.len() as int] == name);
            assert forall|n: Seq<char>| left.contains_key(n) <==> right.contains_key(n) by {
                if names.contains(n) {
                    let j = names.index_of(n);
                    assert(pushed[j] == n);
                }
            }
            assert forall|n: Seq<char>| left.contains_key(n) implies left[n] == right[n] by {
                let j = pushed.index_of(n);
                assert(pushed[j] == n);
                if n != name {
                    assert(names[j] == n);
                    let k = names.index_of(n);
                    assert(names[k] == n);
                    assert(pushed[k] == n);
                }
            }
            assert(left =~= right);
        }
    }

    /// Taking a name out of the lists takes it out of the map.
    proof fn lemma_remove(names: Seq<Seq<char>>, values: Seq<V>, name: Seq<char>)
        requires
            names.no_duplicates(),
            names.len() == values.len(),
        ensures
            names.contains(name) ==> map_of(
                names.remove(names.index_of(name)),
                values.remove(names.index_of(name)),
            ) == map_of(names, values).remove(name),
            names.contains(name) ==> names.remove(names.index_of(name)).no_duplicates(),
            !names.contains(name) ==> map_of(names, values) == map_of(names, values).remove(name),
    {
        if names.contains(name) {
            let i = names.index_of(name);
            let fewer = names.remove(i);
            let left = map_of(fewer, values.remove(i));
            let right = map_of(names, values).remove(name);
            assert forall|a: int, b: int|
                0 <= a < fewer.len() && 0 <= b < fewer.len() && a != b implies fewer[a]
                != fewer[b] by {
                let a0 = if a < i { a } else { a + 1 };
                let b0 = if b < i { b } else { b + 1 };
                assert(fewer[a] == names[a0]);
                assert(fewer[b] == names[b0]);
            }
            assert forall|n: Seq<char>| left.contains_key(n) <==> right.contains_key(n) by {
                if fewer.contains(n) {
                    let j = fewer.index_of(n);
                    let j0 = if j < i { j } else { j + 1 };
                    assert(fewer[j] == names[j0]);
                }
                if names.contains(n) && n != name {
                    let k = names.index_of(n);
                    let k0 = if k < i { k } else { k - 1 };
                    assert(fewer[k0] == n);
                }
            }
            assert forall|n: Seq<char>| left.contains_key(n) implies left[n] == right[n] by {
                let j = fewer.index_of(n);
                let j0 = if j < i { j } else { j + 1 };
                assert(fewer[j] == names[j0]);
                let k = names.index_of(n);
                assert(names[k] == n);
                assert(k == j0);
            }
            assert(left =~= right);
        } else {
            assert(map_of(names, values) =~= map_of(names, values).remove(name));
        }
    }

    pub fn new() -> (map: NameMap<V>)
        ensures
            map.names() == Seq::<Seq<char>>::empty(),
            map.values() == Seq::<V>::empty(),
            map.as_map() == Map::<Seq<char>, V>::empty(),
    {
        let map = NameMap { entries: Vec::new() };
        assert(map.names() =~= Seq::<Seq<char>>::empty());
        assert(map.values() =~= Seq::<V>::empty());
        assert(map.as_map() =~= Map::<Seq<char>, V>::empty());
        map
    }

    pub fn len(&self) -> (len: usize)
        ensures
            len == self.names().len(),
            len == self.values().len(),
    {
        self.entries.len()
    }

    /// The index of a name, if it is in the map.
    pub fn find(&self, name: &str) -> (found: Option<usize>)
        ensures
            match found {
                Some(i) => i < self.names().len() && self.names()[i as int] == name@,
                None => !self.names().contains(name@),
            },
    {
        let key = name.to_owned();
        let mut i: usize = 0;
        while i < self.entries.len()
            invariant
                i <= self.entries.len(),
                key@ == name@,
                forall|j: int| 0 <= j < i ==> self.names()[j] != name@,
            decreases self.entries.len() - i,
        {
            if self.entries[i].0 == key {
                return Some(i);
            }
            i += 1;
        }
        None
    }

    pub fn name_at(&self, i: usize) -> (name: &String)
        requires
            i < self.names().len(),
        ensures
            name@ == self.names()[i as int],
    {
        &self.entries[i].0
    }

    pub fn value_at(&self, i: usize) -> (value: &V)
        requires
            i < self.values().len(),
        ensures
            *value == self.values()[i as int],
    {
        &self.entries[i].1
    }

    /// The value of a name, if it is in the map.
    pub fn get(&self, name: &str) -> (value: Option<&V>)
        ensures
            match value {
                Some(v) => self.as_map().contains_key(name@) && *v == self.as_map()[name@],
                None => !self.as_map().contains_key(name@),
            },
    {
        proof {
            use_type_invariant(self);
        }
        match self.find(name) {
            Some(i) => {
                proof {
                    self.lemma_index_of(i as int);
                }
                Some(&self.entries[i].1)
            },
            None => None,
        }
    }

    pub fn contains(&self, name: &str) -> (found: bool)
        ensures
            found == self.as_map().contains_key(name@),
    {
        self.find(name).is_some()
    }

    /// Sets the value of a name. A name that is in the map keeps its place;
    /// a new name comes last.
    pub fn insert(&mut self, name: &str, value: V)
        ensures
            final(self).as_map() == old(self).as_map().insert(name@, value),
            old(self).names().contains(name@) ==> {
                &&& final(self).names() == old(self).names()
                &&& final(self).values() == old(self).values().update(
                    old(self).names().index_of(name@),
                    value,
                )
            },
            !old(self).names().contains(name@) ==> {
                &&& final(self).names() == old(self).names().push(name@)
                &&& final(self).values() == old(self).values().push(value)
            },
    {
        proof {
            use_type_invariant(&*self);
        }
        match self.find(name) {
            Some(i) => {
                proof {
                    self.lemma_index_of(i as int);
                }
                let mut entries: Vec<(String, V)> = Vec::new();
                assert(names_of(entries@) =~= Seq::<Seq<char>>::empty());
                assert(values_of(entries@) =~= Seq::<V>::empty());
                core::mem::swap(&mut self.entries, &mut entries);
                entries[i] = (name.to_owned(), value);
                assert(names_of(entries@) =~= old(self).names());
                assert(values_of(entries@) =~= old(self).values().update(i as int, value));
                core::mem::swap(&mut self.entries, &mut entries);
            },
            None => {
                let mut entries: Vec<(String, V)> = Vec::new();
                assert(names_of(entries@) =~= Seq::<Seq<char>>::empty());
                assert(values_of(entries@) =~= Seq::<V>::empty());
                core::mem::swap(&mut self.entries, &mut entries);
                entries.push((name.to_owned(), value));
                assert(names_of(entries@) =~= old(self).names().push(name@));
                assert(values_of(entries@) =~= old(self).values().push(value));
                proof {
                    Self::lemma_insert(old(self).names(), old(self).values(), name@, value);
                }
                core::mem::swap(&mut self.entries, &mut entries);
            },
        }
        proof {
            Self::lemma_insert(old(self).names(), old(self).values(), name@, value);
        }
    }

    /// Takes a name out of the map, if it is there. The other names keep
    /// their order.
    pub fn remove(&mut self, name: &str)
        ensures
            final(self).as_map() == old(self).as_map().remove(name@),
            old(self).names().contains(name@) ==> {
                &&& final(self).names() == old(self).names().remove(
                    old(self).names().index_of(name@),
                )
                &&& final(self).values() == old(self).values().remove(
                    old(self).names().index_of(name@),
                )
            },
            !old(self).names().contains(name@) ==> {
                &&& final(self).names() == old(self).names()
                &&& final(self).values() == old(self).values()
            },
    {
        proof {
            use_type_invariant(&*self);
        }
        match self.find(name) {
            Some(i) => {
                proof {
                    self.lemma_index_of(i as int);
                }
                let mut entries: Vec<(String, V)> = Vec::new();
                assert(names_of(entries@) =~= Seq::<Seq<char>>::empty());
                assert(values_of(entries@) =~= Seq::<V>::empty());
                core::mem::swap(&mut self.entries, &mut entries);
                entries.remove(i);
                assert(names_of(entries@) =~= old(self).names().remove(i as int));
                assert(values_of(entries@) =~= old(self).values().remove(i as int));
                proof {
                    Self::lemma_remove(old(self).names(), old(self).values(), name@);
                }
                core::mem::swap(&mut self.entries, &mut entries);
            },
            None => {},
        }
        proof {
            Self::lemma_remove(old(self).names(), old(self).values(), name@);
        }
    }

    /// A map with the same names and values in the same order.
    pub fn duplicate(&self) -> (copy: NameMap<V>) where V: Copy
        ensures
            copy.names() == self.names(),
            copy.values() == self.values(),
    {
        proof {
            use_type_invariant(self);
        }
        let mut entries: Vec<(String, V)> = Vec::new();
        let mut i: usize = 0;
        while i < self.entries.len()
            invariant
                i <= self.entries.len(),
                names_of(entries@) == names_of(self.entries@).take(i as int),
                values_of(entries@) == values_of(self.entries@).take(i as int),
            decreases self.entries.len() - i,
        {
            let ghost before = entries@;
            let name = self.entries[i].0.clone();
            entries.push((name, self.entries[i].1));
            proof {
                assert(names_of(entries@) =~= names_of(before).push(name@));
                assert(values_of(entries@) =~= values_of(before).push(self.entries[i as int].1));
                assert(names_of(self.entries@).take(i + 1) =~= names_of(self.entries@).take(
                    i as int,
                ).push(name@));
                assert(values_of(self.entries@).take(i + 1) =~= values_of(self.entries@).take(
                    i as int,
                ).push(self.entries[i as int].1));
            }
            i += 1;
        }
        assert(names_of(self.entries@).take(i as int) =~= names_of(self.entries@));
        assert(values_of(self.entries@).take(i as int) =~= values_of(self.entries@));
        NameMap { entries }
    }

    /// In a map without duplicates a name is found at its one index.
    proof fn lemma_index_of(&self, i: int)
        requires
            self.names().no_duplicates(),
            0 <= i < self.names().len(),
        ensures
            self.names().contains(self.names()[i]),
            self.names().index_of(self.names()[i]) == i,
    {
    }
}

/// The map that a list of distinct names and a list of values stand for.
pub open spec fn map_of<V>(names: Seq<Seq<char>>, values: Seq<V>) -> Map<Seq<char>, V> {
    Map::new(|name: Seq<char>| names.contains(name), |name: Seq<char>| values[names.index_of(name)])
}

} // verus!

//! A namespace: named objects of one kind, each name used at most once.

use vstd::prelude::*;

verus! {

/// Maps that are the same but for one key hold the same under every other
/// key.
pub proof fn lemma_same_except<K, V>(first: Map<K, V>, second: Map<K, V>, key: K, other: K)
    requires
        first.remove(key) == second.remove(key),
        other != key,
    ensures
        first.contains_key(other) == second.contains_key(other),
        first.contains_key(other) ==> first[other] == second[other],
{
    assert(first.remove(key).contains_key(other) == first.contains_key(other));
    assert(second.remove(key).contains_key(other) == second.contains_key(other));
    if first.contains_key(other) {
        assert(first.remove(key)[other] == first[other]);
        assert(second.remove(key)[other] == second[other]);
    }
}

/// Maps that are the same but for one key, under which they hold the
/// same, are the same.
pub proof fn lemma_same_map<K, V>(first: Map<K, V>, second: Map<K, V>, key: K)
    requires
        first.remove(key) == second.remove(key),
        first.contains_key(key) == second.contains_key(key),
        first.contains_key(key) ==> first[key] == second[key],
    ensures
        first == second,
{
    assert forall|other: K| first.contains_key(other) == second.contains_key(other) by {
        if other != key {
            lemma_same_except(first, second, key, other);
        }
    }
    assert forall|other: K| first.contains_key(other) implies first[other] == second[other] by {
        if other != key {
            lemma_same_except(first, second, key, other);
        }
    }
    assert(first =~= second);
}

/// A map that is the same as another one but for one key, under which it
/// holds the given value, is the other map with that value under the key.
pub proof fn lemma_same_map_with<K, V>(first: Map<K, V>, second: Map<K, V>, key: K, value: V)
    requires
        first.remove(key) == second.remove(key),
        first.contains_key(key),
        first[key] == value,
    ensures
        first == second.insert(key, value),
{
    assert forall|other: K| first.contains_key(other) == second.insert(key, value).contains_key(
        other,
    ) by {
        if other != key {
            lemma_same_except(first, second, key, other);
        }
    }
    assert forall|other: K| first.contains_key(other) implies first[other] == second.insert(
        key,
        value,
    )[other] by {
        if other != key {
            lemma_same_except(first, second, key, other);
        }
    }
    assert(first =~= second.insert(key, value));
}

/// Compares two names byte by byte.
pub fn same_name(lhs: &Vec<u8>, rhs: &Vec<u8>) -> (same: bool)
    ensures
        same == (lhs@ == rhs@),
{
    if lhs.len() != rhs.len() {
        return false;
    }
    let mut i: usize = 0;
    while i < lhs.len()
        invariant
            lhs.len() == rhs.len(),
            i <= lhs.len(),
            forall|k: int| 0 <= k < i ==> lhs[k] == rhs[k],
        decreases lhs.len() - i,
    {
        if lhs[i] != rhs[i] {
            return false;
        }
        i += 1;
    }
    assert(lhs@ =~= rhs@);
    true
}

/// Copies a name.
pub fn copy_name(name: &Vec<u8>) -> (copy: Vec<u8>)
    ensures
        copy@ == name@,
{
    let mut copy: Vec<u8> = Vec::new();
    let mut i: usize = 0;
    while i < name.len()
        invariant
            i <= name.len(),
            copy@ == name@.subrange(0, i as int),
        decreases name.len() - i,
    {
        copy.push(name[i]);
        assert(copy@ =~= name@.subrange(0, i + 1));
        i += 1;
    }
    assert(name@.subrange(0, i as int) =~= name@);
    copy
}

/// The namespace. Its view maps every name in use to the object that
/// carries it.
pub struct Registry<V> {
    names: Vec<Vec<u8>>,
    values: Vec<V>,
}

impl<V> View for Registry<V> {
    type V = Map<Seq<u8>, V>;

    closed spec fn view(&self) -> Map<Seq<u8>, V> {
        Map::new(
            |name: Seq<u8>| self.position_of(name).is_some(),
            |name: Seq<u8>| self.values[self.position_of(name).unwrap()],
        )
    }
}

impl<V> Registry<V> {
    /// The position at which `name` is stored, if it is in use.
    pub closed spec fn position_of(&self, name: Seq<u8>) -> Option<int> {
        if exists|i: int| 0 <= i < self.names.len() && self.names[i]@ == name {
            Some(choose|i: int| 0 <= i < self.names.len() && self.names[i]@ == name)
        } else {
            None
        }
    }

    /// The invariant that every operation keeps: no name is stored twice.
    pub closed spec fn wf(&self) -> bool {
        &&& self.names.len() == self.values.len()
        &&& forall|i: int, j: int|
            0 <= i < self.names.len() && 0 <= j < self.names.len() && i != j
                ==> self.names[i]@ != self.names[j]@
    }

    /// The number of stored objects.
    pub closed spec fn spec_len(&self) -> nat {
        self.names.len() as nat
    }

    /// The name stored at `position`.
    pub closed spec fn name_at(&self, position: int) -> Seq<u8> {
        self.names[position]@
    }

    /// Every position holds a name in use together with its object, and
    /// every name in use is held at one position.
    pub proof fn lemma_positions(&self)
        requires
            self.wf(),
        ensures
            forall|i: int|
                0 <= i < self.spec_len() ==> self@.contains_key(#[trigger] self.name_at(i))
                    && self.position_of(self.name_at(i)) == Some(i),
            forall|name: Seq<u8>|
                self@.contains_key(name) ==> 0 <= (#[trigger] self.position_of(name)).unwrap()
                    < self.spec_len() && self.name_at(self.position_of(name).unwrap()) == name,
            forall|i: int, j: int|
                0 <= i < self.spec_len() && 0 <= j < self.spec_len() && i != j ==> self.name_at(i)
                    != self.name_at(j),
    {
    }

    /// Creates an empty namespace.
    pub fn new() -> (registry: Self)
        ensures
            registry.wf(),
            registry@ == Map::<Seq<u8>, V>::empty(),
            registry.spec_len() == 0,
    {
        let registry = Registry { names: Vec::new(), values: Vec::new() };
        assert(registry@ =~= Map::<Seq<u8>, V>::empty());
        registry
    }

    /// Returns the number of stored objects.
    pub fn len(&self) -> (len: usize)
        requires
            self.wf(),
        ensures
            len == self.spec_len(),
    {
        self.names.len()
    }

    /// Returns the position at which `name` is stored, if it is in use.
    pub fn find(&self, name: &Vec<u8>) -> (position: Option<usize>)
        requires
            self.wf(),
        ensures
            position.is_some() == self@.contains_key(name@),
            position.is_some() ==> Some(position.unwrap() as int) == self.position_of(name@)
                && position.unwrap() < self.spec_len(),
    {
        let mut i: usize = 0;
        while i < self.names.len()
            invariant
                self.wf(),
                i <= self.names.len(),
                forall|k: int| 0 <= k < i ==> self.names[k]@ != name@,
            decreases self.names.len() - i,
        {
            if same_name(&self.names[i], name) {
                proof {
                    let chosen = choose|k: int| 0 <= k < self.names.len() && self.names[k]@ == name@;
                    assert(chosen == i);
                }
                return Some(i);
            }
            i += 1;
        }
        None
    }

    /// Returns true if `name` is in use.
    pub fn contains(&self, name: &Vec<u8>) -> (contained: bool)
        requires
            self.wf(),
        ensures
            contained == self@.contains_key(name@),
    {
        self.find(name).is_some()
    }

    /// Returns the name stored at `position`.
    pub fn name(&self, position: usize) -> (name: &Vec<u8>)
        requires
            self.wf(),
            position < self.spec_len(),
        ensures
            name@ == self.name_at(position as int),
            self@.contains_key(name@),
    {
        &self.names[position]
    }

    /// Returns the object stored at `position`.
    pub fn value(&self, position: usize) -> (value: &V)
        requires
            self.wf(),
            position < self.spec_len(),
        ensures
            *value == self@[self.name_at(position as int)],
    {
        &self.values[position]
    }

    /// Returns the object stored at `position` for changing it.
    pub fn value_mut(&mut self, position: usize) -> (value: &mut V)
        requires
            old(self).wf(),
            position < old(self).spec_len(),
        ensures
            *value == old(self)@[old(self).name_at(position as int)],
            final(self).wf(),
            final(self).spec_len() == old(self).spec_len(),
            forall|i: int| 0 <= i < old(self).spec_len() ==> final(self).name_at(i) == old(self).name_at(i),
            final(self)@ == old(self)@.insert(old(self).name_at(position as int), *final(value)),
    {
        proof {
            assert forall|after: Self, value: V|
                after.names == self.names && after.values@ == #[trigger] self.values@.update(
                    position as int,
                    value,
                ) implies #[trigger] after.wf() && after@ == self@.insert(
                self.names[position as int]@,
                value,
            ) by {
                self.lemma_value_replaced(after, position as int, value);
            }
        }
        &mut self.values[position]
    }

    /// Replacing the object at one position replaces it under its name and
    /// leaves every other name as it is.
    proof fn lemma_value_replaced(self, after: Self, position: int, value: V)
        requires
            self.wf(),
            0 <= position < self.names.len(),
            after.names == self.names,
            after.values@ == self.values@.update(position, value),
        ensures
            after.wf(),
            after@ == self@.insert(self.names[position]@, value),
    {
        assert forall|name: Seq<u8>| #[trigger] after.position_of(name) == self.position_of(name) by {}
        assert(self.position_of(self.names[position]@) == Some(position));
        assert(after@ =~= self@.insert(self.names[position]@, value));
    }

    /// Stores `value` under `name`. When the name is in use already nothing
    /// changes and the value is handed back.
    pub fn insert(&mut self, name: Vec<u8>, value: V) -> (rejected: Option<V>)
        requires
            old(self).wf(),
        ensures
            final(self).wf(),
            rejected.is_some() == old(self)@.contains_key(name@),
            rejected.is_some() ==> rejected == Some(value) && final(self)@ == old(self)@,
            rejected.is_none() ==> final(self)@ == old(self)@.insert(name@, value),
    {
        if self.contains(&name) {
            return Some(value);
        }
        self.names.push(name);
        self.values.push(value);
        proof {
            let position = self.names.len() - 1;
            assert(self.names[position]@ == name@);
            assert forall|other: Seq<u8>| #[trigger]
                self@.contains_key(other) == old(self)@.insert(name@, value).contains_key(
                    other,
                ) by {
                if old(self)@.contains_key(other) {
                    let i = old(self).position_of(other).unwrap();
                    assert(self.names[i]@ == other);
                }
                if self@.contains_key(other) && other != name@ {
                    let i = self.position_of(other).unwrap();
                    assert(old(self).names[i]@ == other);
                }
            }
            assert(self@ =~= old(self)@.insert(name@, value));
        }
        None
    }

    /// Takes the object stored under `name` out of the namespace.
    pub fn remove(&mut self, name: &Vec<u8>) -> (removed: Option<V>)
        requires
            old(self).wf(),
        ensures
            final(self).wf(),
            removed.is_some() == old(self)@.contains_key(name@),
            removed.is_some() ==> removed == Some(old(self)@[name@]),
            final(self)@ == old(self)@.remove(name@),
    {
        match self.find(name) {
            Some(position) => {
                let _ = self.names.swap_remove(position);
                let value = self.values.swap_remove(position);
                proof {
                    let last = old(self).names.len() - 1;
                    assert forall|i: int| 0 <= i < self.names.len() implies self.names[i]
                        == old(self).names[if i == position {
                        last
                    } else {
                        i
                    }] && self.values[i] == old(self).values[if i == position {
                        last
                    } else {
                        i
                    }] by {}
                    assert forall|other: Seq<u8>| #[trigger]
                        self@.contains_key(other) == old(self)@.remove(name@).contains_key(
                            other,
                        ) by {
                        if old(self)@.contains_key(other) && other != name@ {
                            let i = old(self).position_of(other).unwrap();
                            if i == last {
                                assert(self.names[position as int]@ == other);
                            } else {
                                assert(self.names[i]@ == other);
                            }
                        }
                        if self@.contains_key(other) {
                            let i = self.position_of(other).unwrap();
                            assert(self.names[i] == old(self).names[if i == position {
                                last
                            } else {
                                i
                            }]);
                        }
                    }
                    assert forall|other: Seq<u8>| self@.contains_key(other) implies self@[other]
                        == old(self)@.remove(name@)[other] by {
                        let i = self.position_of(other).unwrap();
                        let j = if i == position {
                            last
                        } else {
                            i
                        };
                        assert(old(self).names[j]@ == other);
                        assert(old(self).position_of(other) == Some(j));
                    }
                    assert(self@ =~= old(self)@.remove(name@));
                }
                Some(value)
            },
            None => {
                assert(self@ =~= old(self)@.remove(name@));
                None
            },
        }
    }
}

} // verus!

//! A table keyed by name that keeps its entries in the order in which they
//! were declared.

use crate::text::same_text;
use vstd::prelude::*;

verus! {

/// One entry of a [`NameMap`].
#[derive(Debug)]
pub struct NameEntry<V> {
    name: String,
    value: V,
}

/// A map from names to values that remembers the order of insertion. No
/// name occurs twice.
#[derive(Debug)]
pub struct NameMap<V> {
    entries: Vec<NameEntry<V>>,
}

impl<V> NameMap<V> {
    #[verifier::type_invariant]
    spec fn names_differ(self) -> bool {
        forall|i: int, j: int|
            0 <= i < j < self.entries@.len() ==> self.entries@[i].name@ != self.entries@[j].name@
    }

    /// The names, in declaration order.
    pub closed spec fn names(&self) -> Seq<Seq<char>> {
        Seq::new(self.entries@.len(), |i: int| self.entries@[i].name@)
    }

    /// The values, each at the position of its name.
    pub closed spec fn values(&self) -> Seq<V> {
        Seq::new(self.entries@.len(), |i: int| self.entries@[i].value)
    }

    /// Whether `name` is declared.
    pub open spec fn contains(&self, name: Seq<char>) -> bool {
        self.names().contains(name)
    }

    /// The value declared under `name`, if any.
    pub open spec fn lookup(&self, name: Seq<char>) -> Option<V> {
        if self.names().contains(name) {
            Some(self.values()[self.names().index_of(name)])
        } else {
            None
        }
    }

    /// An empty table.
    pub fn new() -> (m: Self)
        ensures
            m.names() == Seq::<Seq<char>>::empty(),
            m.values() == Seq::<V>::empty(),
    {
        let m = NameMap { entries: Vec::new() };
        assert(m.names() =~= Seq::<Seq<char>>::empty());
        assert(m.values() =~= Seq::<V>::empty());
        m
    }

    /// The number of entries. Every value has its name, and the names are
    /// pairwise distinct.
    pub fn len(&self) -> (n: usize)
        ensures
            n == self.names().len(),
            n == self.values().len(),
            self.names().no_duplicates(),
    {
        proof {
            use_type_invariant(self);
        }
        self.entries.len()
    }

    /// Whether the table holds no entry.
    pub fn is_empty(&self) -> (b: bool)
        ensures
            b == (self.names().len() == 0),
            self.names().len() == self.values().len(),
    {
        self.entries.len() == 0
    }

    /// The position of `name` in declaration order.
    pub fn index_of(&self, name: &str) -> (r: Option<usize>)
        ensures
            self.names().no_duplicates(),
            self.names().len() == self.values().len(),
            match r {
                Some(i) => i < self.names().len() && self.names()[i as int] == name@,
                None => !self.names().contains(name@),
            },
    {
        proof {
            use_type_invariant(self);
        }
        let mut i: usize = 0;
        while i < self.entries.len()
            invariant
                i <= self.entries@.len(),
                self.names().no_duplicates(),
                forall|j: int| 0 <= j < i ==> self.names()[j] != name@,
            decreases self.entries@.len() - i,
        {
            if same_text(self.entries[i].name.as_str(), name) {
                return Some(i);
            }
            i += 1;
        }
        None
    }

    /// Whether `name` is declared.
    pub fn contains_key(&self, name: &str) -> (b: bool)
        ensures
            b == self.contains(name@),
    {
        self.index_of(name).is_some()
    }

    /// The value declared under `name`.
    pub fn get(&self, name: &str) -> (r: Option<&V>)
        ensures
            r == match self.lookup(name@) {
                Some(v) => Some(&v),
                None => None,
            },
    {
        match self.index_of(name) {
            Some(i) => Some(&self.entries[i].value),
            None => None,
        }
    }

    /// The name at position `i` of the declaration order.
    pub fn name_at(&self, i: usize) -> (name: &String)
        requires
            i < self.names().len(),
        ensures
            name@ == self.names()[i as int],
    {
        &self.entries[i].name
    }

    /// The value at position `i` of the declaration order.
    pub fn value_at(&self, i: usize) -> (value: &V)
        requires
            i < self.values().len(),
        ensures
            *value == self.values()[i as int],
    {
        &self.entries[i].value
    }

    /// Declares `value` under `name`. A name that is new goes to the end; for
    /// one that is declared already the value is replaced where it stands,
    /// and the earlier value is returned.
    pub fn insert(&mut self, name: String, value: V) -> (earlier: Option<V>)
        ensures
            match old(self).lookup(name@) {
                Some(v) => {
                    &&& earlier == Some(v)
                    &&& final(self).names() == old(self).names()
                    &&& final(self).values() == old(self).values().update(
                        old(self).names().index_of(name@),
                        value,
                    )
                },
                None => {
                    &&& earlier is None
                    &&& final(self).names() == old(self).names().push(name@)
                    &&& final(self).values() == old(self).values().push(value)
                },
            },
            final(self).lookup(name@) == Some(value),
            forall|other: Seq<char>|
                other != name@ ==> #[trigger] final(self).lookup(other) == old(self).lookup(other),
    {
        proof {
            use_type_invariant(&*self);
        }
        let found = self.index_of(name.as_str());
        let ghost before = *self;
        let mut entries: Vec<NameEntry<V>> = Vec::new();
        std::mem::swap(&mut entries, &mut self.entries);
        let earlier = match found {
            Some(i) => {
                let taken = entries.remove(i);
                entries.insert(i, NameEntry { name: taken.name, value });
                Some(taken.value)
            },
            None => {
                entries.push(NameEntry { name, value });
                None
            },
        };
        proof {
            assert(entries@.len() == before.names().len() + (if found is Some { 0int } else { 1 }));
            assert forall|i: int, j: int| 0 <= i < j < entries@.len() implies entries@[i].name@
                != entries@[j].name@ by {
                if j < before.names().len() {
                    assert(entries@[i].name@ == before.names()[i]);
                    assert(entries@[j].name@ == before.names()[j]);
                } else {
                    assert(entries@[i].name@ == before.names()[i]);
                }
            }
        }
        self.entries = entries;
        proof {
            match found {
                Some(i) => {
                    assert(self.names() =~= before.names());
                    assert(self.values() =~= before.values().update(i as int, value));
                },
                None => {
                    assert(self.names() =~= before.names().push(name@));
                    assert(self.values() =~= before.values().push(value));
                },
            }
            use_type_invariant(&*self);
            let names = self.names();
            let at = match found {
                Some(i) => i as int,
                None => names.len() - 1,
            };
            assert(names[at] == name@);
            assert forall|other: Seq<char>| other != name@ implies #[trigger] self.lookup(other)
                == before.lookup(other) by {
                if names.contains(other) {
                    let k = names.index_of(other);
                    assert(before.names()[k] == other);
                    assert(before.names().index_of(other) == k);
                }
                if before.names().contains(other) {
                    let k = before.names().index_of(other);
                    assert(names[k] == other);
                }
            }
        }
        earlier
    }

    /// Withdraws the entry of `name`, if there is one, and returns its value.
    /// The other entries keep their order.
    pub fn remove(&mut self, name: &str) -> (earlier: Option<V>)
        ensures
            match old(self).lookup(name@) {
                Some(v) => {
                    &&& earlier == Some(v)
                    &&& final(self).names() == old(self).names().remove(
                        old(self).names().index_of(name@),
                    )
                    &&& final(self).values() == old(self).values().remove(
                        old(self).names().index_of(name@),
                    )
                },
                None => {
                    &&& earlier is None
                    &&& final(self).names() == old(self).names()
                    &&& final(self).values() == old(self).values()
                },
            },
            final(self).lookup(name@) is None,
            forall|other: Seq<char>|
                other != name@ ==> #[trigger] final(self).lookup(other) == old(self).lookup(other),
    {
        proof {
            use_type_invariant(&*self);
        }
        let found = self.index_of(name);
        let ghost before = *self;
        match found {
            Some(i) => {
                let mut entries: Vec<NameEntry<V>> = Vec::new();
                std::mem::swap(&mut entries, &mut self.entries);
                let taken = entries.remove(i);
                proof {
                    assert forall|a: int, b: int| 0 <= a < b < entries@.len() implies entries@[a].name@
                        != entries@[b].name@ by {
                        let a0 = if a < i { a } else { a + 1 };
                        let b0 = if b < i { b } else { b + 1 };
                        assert(entries@[a].name@ == before.names()[a0]);
                        assert(entries@[b].name@ == before.names()[b0]);
                    }
                }
                self.entries = entries;
                proof {
                    assert(self.names() =~= before.names().remove(i as int));
                    assert(self.values() =~= before.values().remove(i as int));
                    use_type_invariant(&*self);
                    let names = self.names();
                    if names.contains(name@) {
                        let k = names.index_of(name@);
                        let k0 = if k < i {
                            k
                        } else {
                            k + 1
                        };
                        assert(before.names()[k0] == name@);
                    }
                    assert forall|other: Seq<char>| other != name@ implies #[trigger] self.lookup(
                        other,
                    ) == before.lookup(other) by {
                        if names.contains(other) {
                            let k = names.index_of(other);
                            let k0 = if k < i {
                                k
                            } else {
                                k + 1
                            };
                            assert(before.names()[k0] == other);
                            assert(before.names().index_of(other) == k0);
                        }
                        if before.names().contains(other) {
                            let k = before.names().index_of(other);
                            let k1 = if k < i {
                                k
                            } else {
                                k - 1
                            };
                            assert(names[k1] == other);
                        }
                    }
                }
                Some(taken.value)
            },
            None => None,
        }
    }
}

impl<V: Clone> Clone for NameMap<V> {
    /// A copy with the same names in the same order, each with a clone of
    /// its value.
    fn clone(&self) -> (copy: Self)
        ensures
            copy.names() == self.names(),
            copy.values().len() == self.values().len(),
            forall|i: int|
                0 <= i < self.values().len() ==> vstd::pervasive::cloned(
                    #[trigger] self.values()[i],
                    copy.values()[i],
                ),
    {
        proof {
            use_type_invariant(self);
        }
        let mut entries: Vec<NameEntry<V>> = Vec::new();
        let mut i: usize = 0;
        while i < self.entries.len()
            invariant
                i <= self.entries@.len(),
                entries@.len() == i,
                forall|j: int| 0 <= j < i ==> entries@[j].name@ == self.entries@[j].name@,
                forall|j: int|
                    0 <= j < i ==> vstd::pervasive::cloned(
                        #[trigger] self.entries@[j].value,
                        entries@[j].value,
                    ),
            decreases self.entries@.len() - i,
        {
            let entry = &self.entries[i];
            entries.push(NameEntry { name: entry.name.clone(), value: entry.value.clone() });
            i += 1;
        }
        let copy = NameMap { entries };
        assert(copy.names() =~= self.names());
        copy
    }
}

} // verus!

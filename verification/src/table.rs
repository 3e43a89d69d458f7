//! A small association table: keys that can be compared for identity, each
//! bound to one value.

use vstd::prelude::*;

verus! {

/// A key with an identity: two keys stand for the same entry exactly when
/// their identities are equal.
pub trait Identity {
    /// What a key is, mathematically.
    type Id;

    /// The identity of this key.
    spec fn id(&self) -> Self::Id;

    /// Whether two keys have the same identity.
    fn same(&self, other: &Self) -> (r: bool)
        ensures
            r == (self.id() == other.id()),
    ;
}

/// No identity occurs at two places of `keys`.
spec fn distinct<K: Identity>(keys: Seq<K>) -> bool {
    forall|i: int, j: int|
        0 <= i < j < keys.len() ==> (#[trigger] keys[i]).id() != (#[trigger] keys[j]).id()
}

/// Whether some key has the identity `id`.
spec fn holds_key<K: Identity>(keys: Seq<K>, id: K::Id) -> bool {
    exists|i: int| 0 <= i < keys.len() && (#[trigger] keys[i]).id() == id
}

/// A place of `keys` with the identity `id`, where there is one.
spec fn place<K: Identity>(keys: Seq<K>, id: K::Id) -> int {
    choose|i: int| 0 <= i < keys.len() && (#[trigger] keys[i]).id() == id
}

/// The map that keys and values stand for, place by place.
spec fn bindings<K: Identity, V>(keys: Seq<K>, values: Seq<V>) -> Map<K::Id, V> {
    Map::new(|id: K::Id| holds_key(keys, id), |id: K::Id| values[place(keys, id)])
}

/// Where no identity is repeated, the value at `i` is the binding of the key
/// at `i`.
proof fn lemma_slot_is_binding<K: Identity, V>(keys: Seq<K>, values: Seq<V>, i: int)
    requires
        distinct(keys),
        0 <= i < keys.len(),
    ensures
        bindings(keys, values).contains_key(keys[i].id()),
        bindings(keys, values)[keys[i].id()] == values[i],
{
    let id = keys[i].id();
    assert(holds_key(keys, id));
    let p = place(keys, id);
    assert(keys[p].id() == id);
    if p < i {
        assert(keys[p].id() != keys[i].id());
    } else if i < p {
        assert(keys[i].id() != keys[p].id());
    }
}

/// Appending a key with a new identity binds that identity and leaves the
/// rest as it was.
proof fn lemma_push<K: Identity, V>(keys: Seq<K>, values: Seq<V>, key: K, value: V)
    requires
        distinct(keys),
        keys.len() == values.len(),
        !holds_key(keys, key.id()),
    ensures
        distinct(keys.push(key)),
        bindings(keys.push(key), values.push(value)) == bindings(keys, values).insert(
            key.id(),
            value,
        ),
{
    let keys2 = keys.push(key);
    let values2 = values.push(value);
    let expected = bindings(keys, values).insert(key.id(), value);
    assert forall|i: int, j: int| 0 <= i < j < keys2.len() implies (#[trigger] keys2[i]).id() != (
    #[trigger] keys2[j]).id() by {
        if j < keys.len() {
            assert(keys[i].id() != keys[j].id());
        } else {
            assert(keys[i].id() != key.id());
        }
    }
    assert forall|id: K::Id| holds_key(keys2, id) <==> expected.contains_key(id) by {
        if holds_key(keys2, id) {
            let p = place(keys2, id);
            if p < keys.len() {
                assert(keys[p].id() == id);
            }
        }
        if holds_key(keys, id) {
            let p = place(keys, id);
            assert(keys2[p].id() == id);
        }
        if id == key.id() {
            assert(keys2[keys.len() as int].id() == id);
        }
    }
    assert forall|id: K::Id| holds_key(keys2, id) implies bindings(keys2, values2)[id]
        == expected[id] by {
        let p = place(keys2, id);
        lemma_slot_is_binding(keys2, values2, p);
        if p < keys.len() {
            assert(keys[p] == keys2[p]);
            lemma_slot_is_binding(keys, values, p);
        }
    }
    assert(bindings(keys2, values2) =~= expected);
}

/// Taking the place `i` out unbinds its identity and leaves the rest as it
/// was.
proof fn lemma_remove<K: Identity, V>(keys: Seq<K>, values: Seq<V>, i: int)
    requires
        distinct(keys),
        keys.len() == values.len(),
        0 <= i < keys.len(),
    ensures
        distinct(keys.remove(i)),
        bindings(keys.remove(i), values.remove(i)) == bindings(keys, values).remove(keys[i].id()),
{
    let keys2 = keys.remove(i);
    let values2 = values.remove(i);
    let gone = keys[i].id();
    let expected = bindings(keys, values).remove(gone);
    assert forall|a: int| 0 <= a < keys2.len() implies #[trigger] keys2[a] == keys[if a < i {
        a
    } else {
        a + 1
    }] by {}
    assert forall|a: int, b: int| 0 <= a < b < keys2.len() implies (#[trigger] keys2[a]).id() != (
    #[trigger] keys2[b]).id() by {
        let sa = if a < i { a } else { a + 1 };
        let sb = if b < i { b } else { b + 1 };
        assert(keys[sa].id() != keys[sb].id());
    }
    assert forall|id: K::Id| holds_key(keys2, id) <==> expected.contains_key(id) by {
        if holds_key(keys2, id) {
            let p = place(keys2, id);
            let sp = if p < i { p } else { p + 1 };
            assert(keys2[p] == keys[sp]);
            assert(keys[sp].id() == id);
            if sp < i {
                assert(keys[sp].id() != keys[i].id());
            } else {
                assert(keys[i].id() != keys[sp].id());
            }
        }
        if holds_key(keys, id) && id != gone {
            let p = place(keys, id);
            let ap = if p < i { p } else { p - 1 };
            assert(keys2[ap] == keys[p]);
            assert(keys2[ap].id() == id);
        }
    }
    assert forall|id: K::Id| holds_key(keys2, id) implies bindings(keys2, values2)[id]
        == expected[id] by {
        let p = place(keys2, id);
        let sp = if p < i { p } else { p + 1 };
        assert(keys2[p] == keys[sp]);
        lemma_slot_is_binding(keys2, values2, p);
        lemma_slot_is_binding(keys, values, sp);
    }
    assert(bindings(keys2, values2) =~= expected);
}

/// Replacing the value at `i` rebinds the identity of the key at `i` and
/// leaves the rest as it was.
proof fn lemma_update<K: Identity, V>(keys: Seq<K>, values: Seq<V>, i: int, value: V)
    requires
        distinct(keys),
        keys.len() == values.len(),
        0 <= i < keys.len(),
    ensures
        bindings(keys, values.update(i, value)) == bindings(keys, values).insert(
            keys[i].id(),
            value,
        ),
{
    let values2 = values.update(i, value);
    let expected = bindings(keys, values).insert(keys[i].id(), value);
    assert forall|id: K::Id| holds_key(keys, id) implies bindings(keys, values2)[id]
        == expected[id] by {
        let p = place(keys, id);
        lemma_slot_is_binding(keys, values2, p);
        lemma_slot_is_binding(keys, values, p);
    }
    assert(holds_key(keys, keys[i].id()));
    assert(bindings(keys, values2) =~= expected);
}

/// An association table: every key identity is bound to at most one value.
#[derive(Debug)]
pub struct Table<K: Identity, V> {
    keys: Vec<K>,
    values: Vec<V>,
}

impl<K: Identity, V> Table<K, V> {
    /// Keys and values go place by place, and no identity is held twice.
    #[verifier::type_invariant]
    spec fn well_formed(&self) -> bool {
        self.keys@.len() == self.values@.len() && distinct(self.keys@)
    }

    /// The bindings of the table, by identity.
    pub closed spec fn view(&self) -> Map<K::Id, V> {
        bindings(self.keys@, self.values@)
    }

    /// An empty table.
    pub fn new() -> (table: Self)
        ensures
            table@ == Map::<K::Id, V>::empty(),
    {
        let table = Table { keys: Vec::new(), values: Vec::new() };
        assert(table@ =~= Map::<K::Id, V>::empty());
        table
    }

    /// The place of `key`, if it is bound.
    fn find(&self, key: &K) -> (r: Option<usize>)
        ensures
            match r {
                Some(i) => i < self.keys@.len() && self.keys@[i as int].id() == key.id(),
                None => !holds_key(self.keys@, key.id()),
            },
    {
        let mut i: usize = 0;
        while i < self.keys.len()
            invariant
                i <= self.keys@.len(),
                forall|j: int| 0 <= j < i ==> (#[trigger] self.keys@[j]).id() != key.id(),
            decreases self.keys@.len() - i,
        {
            if self.keys[i].same(key) {
                return Some(i);
            }
            i += 1;
        }
        None
    }

    /// Whether `key` is bound.
    pub fn contains(&self, key: &K) -> (r: bool)
        ensures
            r == self@.contains_key(key.id()),
    {
        self.find(key).is_some()
    }

    /// The value bound to `key`, if any.
    pub fn get(&self, key: &K) -> (r: Option<&V>)
        ensures
            match r {
                Some(value) => self@.contains_key(key.id()) && *value == self@[key.id()],
                None => !self@.contains_key(key.id()),
            },
    {
        proof {
            use_type_invariant(self);
        }
        match self.find(key) {
            Some(i) => {
                proof {
                    lemma_slot_is_binding(self.keys@, self.values@, i as int);
                }
                Some(&self.values[i])
            },
            None => None,
        }
    }

    /// Binds `key` to `value` and hands back what it was bound to before.
    pub fn insert(&mut self, key: K, value: V) -> (previous: Option<V>)
        ensures
            final(self)@ == old(self)@.insert(key.id(), value),
            previous == old(self)@.get(key.id()),
    {
        proof {
            use_type_invariant(&*self);
        }
        let found = self.find(&key);
        let mut taken = Table { keys: Vec::new(), values: Vec::new() };
        std::mem::swap(self, &mut taken);
        let mut keys = taken.keys;
        let mut values = taken.values;
        let previous = match found {
            Some(i) => {
                proof {
                    lemma_slot_is_binding(keys@, values@, i as int);
                    lemma_remove(keys@, values@, i as int);
                }
                keys.remove(i);
                Some(values.remove(i))
            },
            None => None,
        };
        proof {
            lemma_push(keys@, values@, key, value);
        }
        keys.push(key);
        values.push(value);
        *self = Table { keys, values };
        assert(self@ =~= old(self)@.insert(key.id(), value));
        previous
    }

    /// Unbinds `key` and hands back what it was bound to.
    pub fn remove(&mut self, key: &K) -> (previous: Option<V>)
        ensures
            final(self)@ == old(self)@.remove(key.id()),
            previous == old(self)@.get(key.id()),
    {
        proof {
            use_type_invariant(&*self);
        }
        match self.find(key) {
            Some(i) => {
                let mut taken = Table { keys: Vec::new(), values: Vec::new() };
                std::mem::swap(self, &mut taken);
                let mut keys = taken.keys;
                let mut values = taken.values;
                proof {
                    lemma_slot_is_binding(keys@, values@, i as int);
                    lemma_remove(keys@, values@, i as int);
                }
                keys.remove(i);
                let value = values.remove(i);
                *self = Table { keys, values };
                Some(value)
            },
            None => {
                assert(self@ =~= old(self)@.remove(key.id()));
                None
            },
        }
    }

    /// The value bound to `key`, to be changed in place.
    pub fn get_mut(&mut self, key: &K) -> (r: Option<&mut V>)
        ensures
            match r {
                Some(value) => old(self)@.contains_key(key.id()) && *value == old(self)@[key.id()]
                    && final(self)@ == old(self)@.insert(key.id(), *final(value)),
                None => !old(self)@.contains_key(key.id()) && final(self)@ == old(self)@,
            },
    {
        proof {
            use_type_invariant(&*self);
        }
        match self.find(key) {
            Some(i) => {
                proof {
                    lemma_slot_is_binding(self.keys@, self.values@, i as int);
                    assert forall|value: V|
                        bindings(self.keys@, #[trigger] self.values@.update(i as int, value))
                            == bindings(self.keys@, self.values@).insert(key.id(), value) by {
                        lemma_update(self.keys@, self.values@, i as int, value);
                    }
                }
                Some(&mut self.values[i])
            },
            None => None,
        }
    }
}

} // verus!

//! A map from paths to values, kept as a list of keys in which no path occurs
//! twice, with the values beside them.

use vstd::prelude::*;

verus! {

/// A finite map keyed by path. Two paths are the same key when they have the same
/// characters.
#[derive(Debug)]
pub struct PathMap<V> {
    keys: Vec<String>,
    values: Vec<V>,
}

/// Some key of `keys` is `key`.
pub open spec fn has_key(keys: Seq<String>, key: Seq<char>) -> bool {
    exists|i: int| 0 <= i < keys.len() && (#[trigger] keys[i])@ == key
}

/// A place at which `key` stands in `keys`, where there is one.
pub open spec fn slot(keys: Seq<String>, key: Seq<char>) -> int {
    choose|i: int| 0 <= i < keys.len() && (#[trigger] keys[i])@ == key
}

/// No two keys of `keys` are the same.
pub open spec fn keys_distinct(keys: Seq<String>) -> bool {
    forall|i: int, j: int| 0 <= i < j < keys.len() ==> (#[trigger] keys[i])@ != (#[trigger] keys[j])@
}

/// The map that takes each key to the value at its place.
pub open spec fn as_map<V>(keys: Seq<String>, values: Seq<V>) -> Map<Seq<char>, V> {
    Map::new(|k: Seq<char>| has_key(keys, k), |k: Seq<char>| values[slot(keys, k)])
}

proof fn lemma_slot<V>(keys: Seq<String>, values: Seq<V>, i: int)
    requires
        keys_distinct(keys),
        0 <= i < keys.len(),
    ensures
        has_key(keys, keys[i]@),
        slot(keys, keys[i]@) == i,
        as_map(keys, values).contains_key(keys[i]@),
        as_map(keys, values)[keys[i]@] == values[i],
{
    let j = slot(keys, keys[i]@);
    assert(keys[j]@ == keys[i]@);
}

proof fn lemma_absent<V>(keys: Seq<String>, values: Seq<V>, key: Seq<char>)
    requires
        forall|i: int| 0 <= i < keys.len() ==> (#[trigger] keys[i])@ != key,
    ensures
        !as_map(keys, values).contains_key(key),
{
}

proof fn lemma_replaced<V>(keys: Seq<String>, values: Seq<V>, i: int, value: V)
    requires
        keys_distinct(keys),
        keys.len() == values.len(),
        0 <= i < keys.len(),
    ensures
        as_map(keys, values.update(i, value)) == as_map(keys, values).insert(keys[i]@, value),
{
    lemma_slot(keys, values, i);
    assert(as_map(keys, values.update(i, value)) =~= as_map(keys, values).insert(keys[i]@, value));
}

proof fn lemma_pushed<V>(keys: Seq<String>, values: Seq<V>, key: String, value: V)
    requires
        keys_distinct(keys),
        keys.len() == values.len(),
        forall|i: int| 0 <= i < keys.len() ==> (#[trigger] keys[i])@ != key@,
    ensures
        keys_distinct(keys.push(key)),
        as_map(keys.push(key), values.push(value)) == as_map(keys, values).insert(key@, value),
{
    let after = keys.push(key);
    assert(keys_distinct(after)) by {
        assert forall|a: int, b: int| 0 <= a < b < after.len() implies (#[trigger] after[a])@ != (
        #[trigger] after[b])@ by {
            if b < keys.len() {
                assert(keys[a]@ != keys[b]@);
            } else {
                assert(keys[a]@ != key@);
            }
        }
    }
    assert forall|k: Seq<char>| has_key(after, k) == (has_key(keys, k) || k == key@) by {
        if has_key(keys, k) {
            let j = slot(keys, k);
            assert(after[j]@ == k);
        }
        if k == key@ {
            assert(after[keys.len() as int]@ == k);
        }
        if has_key(after, k) {
            let j = slot(after, k);
            if j < keys.len() {
                assert(keys[j]@ == k);
            }
        }
    }
    assert forall|k: Seq<char>| has_key(after, k) implies #[trigger] as_map(
        after,
        values.push(value),
    )[k] == as_map(keys, values).insert(key@, value)[k] by {
        let j = slot(after, k);
        lemma_slot(after, values.push(value), j);
        if j < keys.len() {
            assert(keys[j]@ == k);
            lemma_slot(keys, values, j);
        }
    }
    assert(as_map(after, values.push(value)) =~= as_map(keys, values).insert(key@, value));
}

proof fn lemma_removed<V>(keys: Seq<String>, values: Seq<V>, i: int)
    requires
        keys_distinct(keys),
        keys.len() == values.len(),
        0 <= i < keys.len(),
    ensures
        keys_distinct(keys.remove(i)),
        as_map(keys.remove(i), values.remove(i)) == as_map(keys, values).remove(keys[i]@),
{
    let after = keys.remove(i);
    let key = keys[i]@;
    assert(keys_distinct(after)) by {
        assert forall|a: int, b: int| 0 <= a < b < after.len() implies (#[trigger] after[a])@ != (
        #[trigger] after[b])@ by {
            let a0 = if a < i { a } else { a + 1 };
            let b0 = if b < i { b } else { b + 1 };
            assert(keys[a0]@ != keys[b0]@);
        }
    }
    assert forall|k: Seq<char>| has_key(after, k) == (has_key(keys, k) && k != key) by {
        if has_key(keys, k) && k != key {
            let j = slot(keys, k);
            let j1 = if j < i { j } else { j - 1 };
            assert(after[j1]@ == k);
        }
        if has_key(after, k) {
            let j = slot(after, k);
            let j0 = if j < i { j } else { j + 1 };
            assert(keys[j0]@ == k);
            if k == key {
                assert(keys[if j0 < i { j0 } else { i }]@ != keys[if j0 < i { i } else { j0 }]@);
            }
        }
    }
    assert forall|k: Seq<char>| has_key(after, k) implies #[trigger] as_map(
        after,
        values.remove(i),
    )[k] == as_map(keys, values).remove(key)[k] by {
        let j = slot(after, k);
        lemma_slot(after, values.remove(i), j);
        let j0 = if j < i { j } else { j + 1 };
        assert(keys[j0]@ == k);
        lemma_slot(keys, values, j0);
    }
    assert(as_map(after, values.remove(i)) =~= as_map(keys, values).remove(key));
}

impl<V> View for PathMap<V> {
    type V = Map<Seq<char>, V>;

    closed spec fn view(&self) -> Map<Seq<char>, V> {
        as_map(self.keys@, self.values@)
    }
}

impl<V> PathMap<V> {
    #[verifier::type_invariant]
    spec fn well_formed(self) -> bool {
        keys_distinct(self.keys@) && self.keys@.len() == self.values@.len()
    }

    /// The empty map.
    pub fn new() -> (m: Self)
        ensures
            m@ == Map::<Seq<char>, V>::empty(),
    {
        let m = PathMap { keys: Vec::new(), values: Vec::new() };
        assert(m@ =~= Map::<Seq<char>, V>::empty());
        m
    }

    /// Where `key` stands among the keys.
    fn find(&self, key: &String) -> (at: Option<usize>)
        ensures
            match at {
                Some(i) => i < self.keys@.len() && self.keys@[i as int]@ == key@,
                None => forall|i: int| 0 <= i < self.keys@.len() ==> (#[trigger] self.keys@[i])@ != key@,
            },
    {
        let mut i: usize = 0;
        while i < self.keys.len()
            invariant
                i <= self.keys@.len(),
                forall|k: int| 0 <= k < i ==> (#[trigger] self.keys@[k])@ != key@,
            decreases self.keys@.len() - i,
        {
            if self.keys[i] == *key {
                return Some(i);
            }
            i += 1;
        }
        None
    }

    /// The value at `key`, if the map has one.
    pub fn get(&self, key: &str) -> (r: Option<&V>)
        ensures
            match r {
                Some(v) => self@.contains_key(key@) && *v == self@[key@],
                None => !self@.contains_key(key@),
            },
    {
        proof {
            use_type_invariant(self);
        }
        let owned = key.to_owned();
        match self.find(&owned) {
            Some(i) => {
                proof {
                    lemma_slot(self.keys@, self.values@, i as int);
                }
                Some(&self.values[i])
            },
            None => {
                proof {
                    lemma_absent(self.keys@, self.values@, key@);
                }
                None
            },
        }
    }

    /// The value at `key`, to be changed in place. The map afterwards holds at
    /// `key` whatever the caller leaves there, and is otherwise as it was.
    pub fn get_mut(&mut self, key: &str) -> (r: Option<&mut V>)
        ensures
            match r {
                Some(v) => {
                    &&& old(self)@.contains_key(key@)
                    &&& *v == old(self)@[key@]
                    &&& final(self)@ == old(self)@.insert(key@, *final(v))
                },
                None => !old(self)@.contains_key(key@) && final(self)@ == old(self)@,
            },
    {
        proof {
            use_type_invariant(&*self);
        }
        let owned = key.to_owned();
        let found = self.find(&owned);
        match found {
            Some(i) => {
                proof {
                    lemma_slot(self.keys@, self.values@, i as int);
                    assert forall|v: V| #[trigger]
                        as_map(self.keys@, self.values@.update(i as int, v)) == as_map(
                            self.keys@,
                            self.values@,
                        ).insert(key@, v) by {
                        lemma_replaced(self.keys@, self.values@, i as int, v);
                    }
                }
                Some(&mut self.values[i])
            },
            None => {
                proof {
                    lemma_absent(self.keys@, self.values@, key@);
                }
                None
            },
        }
    }

    /// Puts `value` at `key`, in place of the value that was there if there was
    /// one, and hands that one back.
    pub fn insert(&mut self, key: String, value: V) -> (r: Option<V>)
        ensures
            final(self)@ == old(self)@.insert(key@, value),
            match r {
                Some(v) => old(self)@.contains_key(key@) && v == old(self)@[key@],
                None => !old(self)@.contains_key(key@),
            },
    {
        proof {
            use_type_invariant(&*self);
        }
        match self.find(&key) {
            Some(i) => {
                proof {
                    lemma_slot(self.keys@, self.values@, i as int);
                    lemma_replaced(self.keys@, self.values@, i as int, value);
                }
                let mut held = value;
                std::mem::swap(&mut held, &mut self.values[i]);
                Some(held)
            },
            None => {
                proof {
                    lemma_absent(self.keys@, self.values@, key@);
                    lemma_pushed(self.keys@, self.values@, key, value);
                }
                let mut taken = PathMap::new();
                std::mem::swap(&mut taken, self);
                let PathMap { mut keys, mut values } = taken;
                keys.push(key);
                values.push(value);
                *self = PathMap { keys, values };
                None
            },
        }
    }

    /// Takes the entry of `key` out of the map, if it has one, and hands its
    /// value back.
    pub fn remove(&mut self, key: &str) -> (r: Option<V>)
        ensures
            final(self)@ == old(self)@.remove(key@),
            match r {
                Some(v) => old(self)@.contains_key(key@) && v == old(self)@[key@],
                None => !old(self)@.contains_key(key@),
            },
    {
        proof {
            use_type_invariant(&*self);
        }
        let owned = key.to_owned();
        match self.find(&owned) {
            Some(i) => {
                proof {
                    lemma_slot(self.keys@, self.values@, i as int);
                    lemma_removed(self.keys@, self.values@, i as int);
                }
                let mut taken = PathMap::new();
                std::mem::swap(&mut taken, self);
                let PathMap { mut keys, mut values } = taken;
                keys.remove(i);
                let value = values.remove(i);
                *self = PathMap { keys, values };
                Some(value)
            },
            None => {
                proof {
                    lemma_absent(self.keys@, self.values@, key@);
                    assert(self@ =~= self@.remove(key@));
                }
                None
            },
        }
    }

    /// The keys of the map, each once, and beside each its value.
    pub fn entries(&self) -> (r: (&Vec<String>, &Vec<V>))
        ensures
            keys_distinct(r.0@),
            r.0@.len() == r.1@.len(),
            self@ == as_map(r.0@, r.1@),
    {
        proof {
            use_type_invariant(self);
        }
        (&self.keys, &self.values)
    }
}

} // verus!

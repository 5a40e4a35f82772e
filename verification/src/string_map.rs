//! A map from text to values that remembers the order in which its keys
//! came.

use vstd::prelude::*;

verus! {

/// No key occurs twice in `entries`.
pub open spec fn distinct_keys<V>(entries: Seq<(Seq<char>, V)>) -> bool {
    forall|i: int, j: int|
        0 <= i < j < entries.len() ==> (#[trigger] entries[i]).0 != (#[trigger] entries[j]).0
}

/// The map that holds `entries`, a later entry replacing an earlier one with
/// the same key.
pub open spec fn map_of<V>(entries: Seq<(Seq<char>, V)>) -> Map<Seq<char>, V>
    decreases entries.len(),
{
    if entries.len() == 0 {
        Map::empty()
    } else {
        map_of(entries.drop_last()).insert(entries.last().0, entries.last().1)
    }
}

/// A key is in `map_of(entries)` exactly if it is the key of an entry.
pub proof fn lemma_map_of_keys<V>(entries: Seq<(Seq<char>, V)>, key: Seq<char>)
    ensures
        map_of(entries).contains_key(key) <==> exists|i: int|
            0 <= i < entries.len() && (#[trigger] entries[i]).0 == key,
    decreases entries.len(),
{
    if entries.len() > 0 {
        let front = entries.drop_last();
        lemma_map_of_keys(front, key);
        if map_of(entries).contains_key(key) && entries.last().0 != key {
            let i = choose|i: int| 0 <= i < front.len() && (#[trigger] front[i]).0 == key;
            assert(entries[i].0 == key);
        }
        if exists|i: int| 0 <= i < entries.len() && (#[trigger] entries[i]).0 == key {
            let i = choose|i: int| 0 <= i < entries.len() && (#[trigger] entries[i]).0 == key;
            if i < entries.len() - 1 {
                assert(front[i].0 == key);
            }
        }
    }
}

/// Where no key occurs twice, each entry's value is what its key maps to.
pub proof fn lemma_map_of_value<V>(entries: Seq<(Seq<char>, V)>, i: int)
    requires
        distinct_keys(entries),
        0 <= i < entries.len(),
    ensures
        map_of(entries).contains_key(entries[i].0),
        map_of(entries)[entries[i].0] == entries[i].1,
    decreases entries.len(),
{
    if i < entries.len() - 1 {
        lemma_map_of_value(entries.drop_last(), i);
    }
}

/// The place of `key` among `entries`, where it is the key of one of them.
pub open spec fn place_of<V>(entries: Seq<(Seq<char>, V)>, key: Seq<char>) -> int {
    choose|i: int| 0 <= i < entries.len() && (#[trigger] entries[i]).0 == key
}

/// The entries that `keys` and `values` make up, place by place, each key as
/// the text it holds.
pub open spec fn zipped<V>(keys: Seq<String>, values: Seq<V>) -> Seq<(Seq<char>, V)> {
    Seq::new(keys.len(), |i: int| (keys[i]@, values[i]))
}

/// A map from text to values of type `V`. Its entries stay in the order in
/// which their keys were first inserted.
pub struct StringMap<V> {
    keys: Vec<String>,
    values: Vec<V>,
}

impl<V> StringMap<V> {
    #[verifier::type_invariant]
    spec fn well_formed(self) -> bool {
        &&& self.keys@.len() == self.values@.len()
        &&& forall|i: int, j: int|
            0 <= i < j < self.keys@.len() ==> (#[trigger] self.keys@[i])@ != (
            #[trigger] self.keys@[j])@
    }

    /// The entries in order, each key as the text it holds.
    pub closed spec fn pairs(&self) -> Seq<(Seq<char>, V)> {
        zipped(self.keys@, self.values@)
    }

    /// The map that the entries make up.
    pub open spec fn view(&self) -> Map<Seq<char>, V> {
        map_of(self.pairs())
    }

    /// No key has two entries.
    proof fn lemma_distinct(&self)
        requires
            self.well_formed(),
        ensures
            distinct_keys(self.pairs()),
            self.pairs().len() == self.keys@.len(),
    {
    }

    /// An empty map.
    pub fn new() -> (map: Self)
        ensures
            map.pairs() == Seq::<(Seq<char>, V)>::empty(),
            map@ == Map::<Seq<char>, V>::empty(),
    {
        StringMap { keys: Vec::new(), values: Vec::new() }
    }

    /// The number of entries, which is the number of keys, as no key has
    /// two entries.
    pub fn len(&self) -> (len: usize)
        ensures
            len == self.pairs().len(),
            len == self@.dom().len(),
            distinct_keys(self.pairs()),
    {
        proof {
            use_type_invariant(self);
            self.lemma_distinct();
            lemma_map_of_len(self.pairs());
        }
        self.keys.len()
    }

    /// The place of `key` among the entries, if it is there.
    pub fn position(&self, key: &str) -> (place: Option<usize>)
        ensures
            match place {
                Some(i) => i < self.pairs().len() && self.pairs()[i as int].0 == key@,
                None => forall|j: int| 0 <= j < self.pairs().len() ==> self.pairs()[j].0 != key@,
            },
            place is Some <==> self@.contains_key(key@),
    {
        proof {
            use_type_invariant(self);
            lemma_map_of_keys(self.pairs(), key@);
        }
        let wanted = key.to_owned();
        let mut i: usize = 0;
        while i < self.keys.len()
            invariant
                i <= self.keys@.len(),
                self.keys@.len() == self.pairs().len(),
                wanted@ == key@,
                forall|j: int| 0 <= j < i ==> self.pairs()[j].0 != key@,
                self@.contains_key(key@) <==> exists|j: int|
                    0 <= j < self.pairs().len() && (#[trigger] self.pairs()[j]).0 == key@,
            decreases self.keys@.len() - i,
        {
            if self.keys[i] == wanted {
                assert(self.pairs()[i as int].0 == key@);
                return Some(i);
            }
            i = i + 1;
        }
        None
    }

    /// Whether `key` has an entry.
    pub fn contains_key(&self, key: &str) -> (found: bool)
        ensures
            found == self@.contains_key(key@),
    {
        self.position(key).is_some()
    }

    /// The value of `key`, if it has an entry.
    pub fn get(&self, key: &str) -> (value: Option<&V>)
        ensures
            match value {
                Some(v) => self@.contains_key(key@) && *v == self@[key@],
                None => !self@.contains_key(key@),
            },
    {
        match self.position(key) {
            Some(i) => {
                proof {
                    use_type_invariant(self);
                    self.lemma_distinct();
                    lemma_map_of_value(self.pairs(), i as int);
                }
                Some(&self.values[i])
            },
            None => None,
        }
    }

    /// The value of `key` for changing in place, if it has an entry.
    pub fn get_mut(&mut self, key: &str) -> (value: Option<&mut V>)
        ensures
            match value {
                Some(v) => {
                    &&& old(self)@.contains_key(key@)
                    &&& *v == old(self)@[key@]
                    &&& final(self)@ == old(self)@.insert(key@, *final(v))
                    &&& final(self).pairs() == old(self).pairs().update(
                        place_of(old(self).pairs(), key@),
                        (key@, *final(v)),
                    )
                },
                None => !old(self)@.contains_key(key@) && final(self).pairs() == old(self).pairs(),
            },
    {
        let ghost before = self.pairs();
        proof {
            use_type_invariant(&*self);
            self.lemma_distinct();
        }
        match self.position(key) {
            Some(i) => {
                proof {
                    lemma_map_of_value(before, i as int);
                    assert forall|v: V|
                        map_of(#[trigger] before.update(i as int, (key@, v))) == map_of(
                            before,
                        ).insert(key@, v) by {
                        lemma_map_of_update(before, i as int, v);
                    }
                    assert forall|values: Seq<V>|
                        values.len() == before.len() && values == self.values@.update(
                            i as int,
                            values[i as int],
                        ) implies #[trigger] zipped(self.keys@, values) == before.update(
                        i as int,
                        (key@, values[i as int]),
                    ) by {
                        assert(zipped(self.keys@, values) =~= before.update(
                            i as int,
                            (key@, values[i as int]),
                        ));
                    }
                }
                Some(&mut self.values[i])
            },
            None => None,
        }
    }

    /// The entry at place `index`, if there are that many.
    pub fn entry(&self, index: usize) -> (entry: Option<(&String, &V)>)
        ensures
            entry is Some <==> index < self.pairs().len(),
            entry matches Some(e) ==> (e.0@, *e.1) == self.pairs()[index as int] && self@.contains_key(
                e.0@,
            ) && self@[e.0@] == *e.1,
    {
        proof {
            use_type_invariant(self);
            self.lemma_distinct();
        }
        if index < self.keys.len() {
            proof {
                lemma_map_of_value(self.pairs(), index as int);
            }
            Some((&self.keys[index], &self.values[index]))
        } else {
            None
        }
    }

    /// Gives `key` the value `value`. A key that is already there keeps its
    /// place and hands back its former value; a new key goes to the end.
    pub fn insert(&mut self, key: String, value: V) -> (former: Option<V>)
        ensures
            final(self)@ == old(self)@.insert(key@, value),
            former == if old(self)@.contains_key(key@) {
                Some(old(self)@[key@])
            } else {
                None
            },
            final(self).pairs() == if old(self)@.contains_key(key@) {
                old(self).pairs().update(place_of(old(self).pairs(), key@), (key@, value))
            } else {
                old(self).pairs().push((key@, value))
            },
    {
        let ghost before = self.pairs();
        proof {
            use_type_invariant(&*self);
            self.lemma_distinct();
        }
        match self.position(key.as_str()) {
            Some(i) => {
                proof {
                    lemma_map_of_value(before, i as int);
                    lemma_map_of_update(before, i as int, value);
                }
                let mut former = value;
                std::mem::swap(&mut self.values[i], &mut former);
                assert(self.pairs() =~= before.update(i as int, (key@, value)));
                Some(former)
            },
            None => {
                // The new entry is added outside the map, which is put back
                // whole: between the two pushes it is no map.
                let mut taken: StringMap<V> = StringMap { keys: Vec::new(), values: Vec::new() };
                std::mem::swap(self, &mut taken);
                let StringMap { mut keys, mut values } = taken;
                keys.push(key);
                values.push(value);
                proof {
                    assert(zipped(keys@, values@).drop_last() =~= before);
                    lemma_map_of_keys(before, key@);
                    assert forall|i: int, j: int| 0 <= i < j < keys@.len() implies (
                    #[trigger] keys@[i])@ != (#[trigger] keys@[j])@ by {
                        if j == keys@.len() - 1 {
                            assert(before[i].0 != key@);
                        }
                    }
                }
                *self = StringMap { keys, values };
                None
            },
        }
    }
}

/// Giving the entry at place `i` another value changes the map at its key
/// alone.
pub proof fn lemma_map_of_update<V>(entries: Seq<(Seq<char>, V)>, i: int, value: V)
    requires
        distinct_keys(entries),
        0 <= i < entries.len(),
    ensures
        distinct_keys(entries.update(i, (entries[i].0, value))),
        map_of(entries.update(i, (entries[i].0, value))) == map_of(entries).insert(
            entries[i].0,
            value,
        ),
{
    let key = entries[i].0;
    let updated = entries.update(i, (key, value));
    assert(distinct_keys(updated));
    let left = map_of(updated);
    let right = map_of(entries).insert(key, value);
    assert forall|k: Seq<char>| left.contains_key(k) <==> right.contains_key(k) by {
        lemma_map_of_keys(updated, k);
        lemma_map_of_keys(entries, k);
        if left.contains_key(k) {
            let j = choose|j: int| 0 <= j < updated.len() && (#[trigger] updated[j]).0 == k;
            assert(entries[j].0 == k);
        }
        if map_of(entries).contains_key(k) {
            let j = choose|j: int| 0 <= j < entries.len() && (#[trigger] entries[j]).0 == k;
            assert(updated[j].0 == k);
        }
    }
    assert forall|k: Seq<char>| left.contains_key(k) implies left[k] == right[k] by {
        lemma_map_of_keys(updated, k);
        let j = choose|j: int| 0 <= j < updated.len() && (#[trigger] updated[j]).0 == k;
        lemma_map_of_value(updated, j);
        if j != i {
            lemma_map_of_value(entries, j);
        }
    }
}

/// Where no key occurs twice, the map has as many keys as there are
/// entries.
pub proof fn lemma_map_of_len<V>(entries: Seq<(Seq<char>, V)>)
    requires
        distinct_keys(entries),
    ensures
        map_of(entries).dom().finite(),
        map_of(entries).dom().len() == entries.len(),
    decreases entries.len(),
{
    if entries.len() > 0 {
        let front = entries.drop_last();
        lemma_map_of_len(front);
        lemma_map_of_keys(front, entries.last().0);
        if map_of(front).contains_key(entries.last().0) {
            let j = choose|j: int| 0 <= j < front.len() && (#[trigger] front[j]).0 == entries.last().0;
            assert(entries[j].0 == entries[entries.len() - 1].0);
        }
    }
}

} // verus!

//! Records keyed by a handle.

use vstd::prelude::*;

verus! {

/// A list of records, each under a key of its own, in the order in which the
/// keys came.
#[derive(Debug)]
pub struct Table<V> {
    keys: Vec<u64>,
    values: Vec<V>,
}

/// The records by their keys.
pub open spec fn mapped<V>(keys: Seq<u64>, values: Seq<V>) -> Map<u64, V> {
    Map::new(|key: u64| keys.contains(key), |key: u64| values[keys.index_of(key)])
}

pub open spec fn distinct(keys: Seq<u64>) -> bool {
    forall|i: int, j: int| 0 <= i < j < keys.len() ==> keys[i] != keys[j]
}

impl<V> View for Table<V> {
    type V = Map<u64, V>;

    open spec fn view(&self) -> Map<u64, V> {
        mapped(self.key_seq(), self.value_seq())
    }
}

impl<V> Table<V> {
    pub closed spec fn key_seq(&self) -> Seq<u64> {
        self.keys@
    }

    pub closed spec fn value_seq(&self) -> Seq<V> {
        self.values@
    }

    /// One record for each key, and no key twice.
    pub open spec fn wf(&self) -> bool {
        &&& self.key_seq().len() == self.value_seq().len()
        &&& self.key_seq().len() <= usize::MAX
        &&& distinct(self.key_seq())
    }

    /// The record at a place is the record of the key at that place.
    pub proof fn lemma_at(&self, index: int)
        requires
            self.wf(),
            0 <= index < self.key_seq().len(),
        ensures
            self@.contains_key(self.key_seq()[index]),
            self@[self.key_seq()[index]] == self.value_seq()[index],
    {
        lemma_index(self.key_seq(), index);
    }

    pub fn new() -> (table: Self)
        ensures
            table.wf(),
            table@ == Map::<u64, V>::empty(),
            table.key_seq().len() == 0,
    {
        let table = Table { keys: Vec::new(), values: Vec::new() };
        assert(table@ =~= Map::<u64, V>::empty());
        table
    }

    pub fn len(&self) -> (len: usize)
        requires
            self.wf(),
        ensures
            len == self.key_seq().len(),
    {
        self.keys.len()
    }

    pub fn key_at(&self, index: usize) -> (key: u64)
        requires
            self.wf(),
            index < self.key_seq().len(),
        ensures
            key == self.key_seq()[index as int],
    {
        self.keys[index]
    }

    pub fn at(&self, index: usize) -> (value: &V)
        requires
            self.wf(),
            index < self.key_seq().len(),
        ensures
            *value == self.value_seq()[index as int],
    {
        &self.values[index]
    }

    pub fn at_mut(&mut self, index: usize) -> (value: &mut V)
        requires
            old(self).wf(),
            index < old(self).key_seq().len(),
        ensures
            *value == old(self).value_seq()[index as int],
            final(self).wf(),
            final(self).key_seq() == old(self).key_seq(),
            final(self).value_seq() == old(self).value_seq().update(index as int, *final(value)),
    {
        &mut self.values[index]
    }

    /// Where a key stands.
    pub fn find(&self, key: u64) -> (found: Option<usize>)
        requires
            self.wf(),
        ensures
            match found {
                Some(index) => {
                    &&& index < self.key_seq().len()
                    &&& self.key_seq()[index as int] == key
                    &&& self@.contains_key(key)
                    &&& self@[key] == self.value_seq()[index as int]
                },
                None => !self@.contains_key(key),
            },
    {
        let mut index: usize = 0;
        while index < self.keys.len()
            invariant
                self.wf(),
                index <= self.keys.len(),
                forall|i: int| 0 <= i < index ==> self.keys@[i] != key,
            decreases self.keys.len() - index,
        {
            if self.keys[index] == key {
                proof {
                    self.lemma_at(index as int);
                }
                return Some(index);
            }
            index = index + 1;
        }
        None
    }

    pub fn contains_key(&self, key: u64) -> (contained: bool)
        requires
            self.wf(),
        ensures
            contained == self@.contains_key(key),
    {
        self.find(key).is_some()
    }

    pub fn get(&self, key: u64) -> (value: Option<&V>)
        requires
            self.wf(),
        ensures
            match value {
                Some(found) => self@.contains_key(key) && *found == self@[key],
                None => !self@.contains_key(key),
            },
    {
        match self.find(key) {
            Some(index) => Some(&self.values[index]),
            None => None,
        }
    }

    /// Puts a record under a key, in place of the one that was there.
    pub fn insert(&mut self, key: u64, value: V)
        requires
            old(self).wf(),
        ensures
            final(self).wf(),
            final(self)@ == old(self)@.insert(key, value),
            final(self).key_seq().len() <= old(self).key_seq().len() + 1,
    {
        let ghost keys = self.keys@;
        let ghost values = self.values@;
        match self.find(key) {
            Some(index) => {
                self.values.set(index, value);
                proof {
                    lemma_update(keys, values, index as int, value);
                }
            },
            None => {
                self.keys.push(key);
                self.values.push(value);
                let _count: usize = self.keys.len();
                proof {
                    lemma_push(keys, values, key, value);
                }
            },
        }
    }

    /// Takes a record out.
    pub fn remove(&mut self, key: u64) -> (removed: Option<V>)
        requires
            old(self).wf(),
        ensures
            final(self).wf(),
            final(self)@ == old(self)@.remove(key),
            final(self).key_seq().len() <= old(self).key_seq().len(),
            match removed {
                Some(value) => old(self)@.contains_key(key) && value == old(self)@[key],
                None => !old(self)@.contains_key(key),
            },
    {
        let ghost keys = self.keys@;
        let ghost values = self.values@;
        match self.find(key) {
            Some(index) => {
                let _ = self.keys.remove(index);
                let value: V = self.values.remove(index);
                proof {
                    lemma_remove(keys, values, index as int);
                }
                Some(value)
            },
            None => {
                assert(self@ =~= old(self)@.remove(key));
                None
            },
        }
    }
}

proof fn lemma_index(keys: Seq<u64>, index: int)
    requires
        distinct(keys),
        0 <= index < keys.len(),
    ensures
        keys.contains(keys[index]),
        keys.index_of(keys[index]) == index,
{
    let found = keys.index_of(keys[index]);
    assert(keys[found] == keys[index]);
    if found < index {
        assert(keys[found] != keys[index]);
    } else if index < found {
        assert(keys[index] != keys[found]);
    }
}

/// Changing the record at one place changes the record of one key.
pub proof fn lemma_update<V>(keys: Seq<u64>, values: Seq<V>, index: int, value: V)
    requires
        distinct(keys),
        keys.len() == values.len(),
        0 <= index < keys.len(),
    ensures
        mapped(keys, values.update(index, value)) == mapped(keys, values).insert(
            keys[index],
            value,
        ),
{
    lemma_index(keys, index);
    assert forall|key: u64| keys.contains(key) && key != keys[index] implies keys.index_of(key)
        != index by {
        assert(keys[keys.index_of(key)] == key);
    }
    assert(mapped(keys, values.update(index, value)) =~= mapped(keys, values).insert(
        keys[index],
        value,
    ));
}

proof fn lemma_push<V>(keys: Seq<u64>, values: Seq<V>, key: u64, value: V)
    requires
        distinct(keys),
        keys.len() == values.len(),
        !keys.contains(key),
    ensures
        distinct(keys.push(key)),
        mapped(keys.push(key), values.push(value)) == mapped(keys, values).insert(key, value),
{
    let more = keys.push(key);
    assert forall|i: int, j: int| 0 <= i < j < more.len() implies more[i] != more[j] by {
        if j == keys.len() {
            assert(keys.contains(keys[i]));
        } else {
            assert(keys[i] != keys[j]);
        }
    }
    lemma_index(more, keys.len() as int);
    assert forall|other: u64| more.contains(other) <==> keys.contains(other) || other == key by {
        if keys.contains(other) {
            assert(more[keys.index_of(other)] == other);
        }
        if more.contains(other) && other != key {
            assert(keys[more.index_of(other)] == other);
        }
    }
    assert forall|other: u64| keys.contains(other) implies more.index_of(other) == keys.index_of(
        other,
    ) by {
        let i = keys.index_of(other);
        assert(more[i] == other);
        lemma_index(more, i);
    }
    assert(mapped(more, values.push(value)) =~= mapped(keys, values).insert(key, value));
}

proof fn lemma_remove<V>(keys: Seq<u64>, values: Seq<V>, index: int)
    requires
        distinct(keys),
        keys.len() == values.len(),
        0 <= index < keys.len(),
    ensures
        distinct(keys.remove(index)),
        mapped(keys.remove(index), values.remove(index)) == mapped(keys, values).remove(
            keys[index],
        ),
{
    let fewer = keys.remove(index);
    let key = keys[index];
    assert forall|i: int, j: int| 0 <= i < j < fewer.len() implies fewer[i] != fewer[j] by {
        let k = if i < index {
            i
        } else {
            i + 1
        };
        let l = if j < index {
            j
        } else {
            j + 1
        };
        assert(keys[k] != keys[l]);
    }
    assert forall|other: u64| fewer.contains(other) <==> keys.contains(other) && other != key by {
        if keys.contains(other) && other != key {
            let i = keys.index_of(other);
            let k = if i < index {
                i
            } else {
                i - 1
            };
            assert(fewer[k] == other);
        }
        if fewer.contains(other) {
            let i = fewer.index_of(other);
            let k = if i < index {
                i
            } else {
                i + 1
            };
            assert(keys[k] == other);
            if other == key {
                if k < index {
                    assert(keys[k] != keys[index]);
                } else {
                    assert(keys[index] != keys[k]);
                }
            }
        }
    }
    assert forall|other: u64| fewer.contains(other) implies values.remove(index)[fewer.index_of(
        other,
    )] == values[keys.index_of(other)] by {
        let i = fewer.index_of(other);
        let k = if i < index {
            i
        } else {
            i + 1
        };
        assert(keys[k] == other);
        lemma_index(keys, k);
    }
    assert(mapped(fewer, values.remove(index)) =~= mapped(keys, values).remove(key));
}

} // verus!

//! A table from names (byte strings) to values, each name at most once: an
//! insertion under a name that is there replaces its value, as in a map.
use vstd::prelude::*;

verus! {

/// Whether two byte strings are equal.
pub fn bytes_eq(a: &[u8], b: &[u8]) -> (r: bool)
    ensures
        r == (a@ == b@),
{
    if a.len() != b.len() {
        return false;
    }
    let mut i: usize = 0;
    while i < a.len()
        invariant
            i <= a@.len(),
            a@.len() == b@.len(),
            forall|j: int| 0 <= j < i ==> a@[j] == b@[j],
        decreases a@.len() - i,
    {
        if a[i] != b[i] {
            return false;
        }
        i = i + 1;
    }
    assert(a@ =~= b@);
    true
}

/// The map that a list of entries describes: each later entry overrides.
pub open spec fn map_of<V>(entries: Seq<(Seq<u8>, V)>) -> Map<Seq<u8>, V>
    decreases entries.len(),
{
    if entries.len() == 0 {
        Map::empty()
    } else {
        map_of(entries.drop_last()).insert(entries.last().0, entries.last().1)
    }
}

/// Looking a name up in a list of entries: the last entry for it decides.
pub proof fn lemma_map_of_last<V>(entries: Seq<(Seq<u8>, V)>, key: Seq<u8>, i: int)
    requires
        0 <= i < entries.len(),
        entries[i].0 == key,
        forall|j: int| i < j < entries.len() ==> entries[j].0 != key,
    ensures
        map_of(entries).contains_key(key),
        map_of(entries)[key] == entries[i].1,
    decreases entries.len(),
{
    if i < entries.len() - 1 {
        lemma_map_of_last(entries.drop_last(), key, i);
    }
}

/// A name that no entry carries is not in the map.
pub proof fn lemma_map_of_absent<V>(entries: Seq<(Seq<u8>, V)>, key: Seq<u8>)
    requires
        forall|j: int| 0 <= j < entries.len() ==> entries[j].0 != key,
    ensures
        !map_of(entries).contains_key(key),
    decreases entries.len(),
{
    if entries.len() > 0 {
        lemma_map_of_absent(entries.drop_last(), key);
    }
}

/// Whether no two entries carry the same name.
pub open spec fn keys_distinct<V>(entries: Seq<(Seq<u8>, V)>) -> bool {
    forall|i: int, j: int| 0 <= i < j < entries.len() ==> entries[i].0 != entries[j].0
}

/// Replacing the value of an entry replaces it in the map.
pub proof fn lemma_map_of_update<V>(entries: Seq<(Seq<u8>, V)>, i: int, v: V)
    requires
        0 <= i < entries.len(),
        keys_distinct(entries),
    ensures
        map_of(entries.update(i, (entries[i].0, v))) == map_of(entries).insert(entries[i].0, v),
    decreases entries.len(),
{
    let updated = entries.update(i, (entries[i].0, v));
    if i == entries.len() - 1 {
        assert(updated.drop_last() =~= entries.drop_last());
        assert(map_of(updated) =~= map_of(entries).insert(entries[i].0, v));
    } else {
        let front = entries.drop_last();
        assert(updated.drop_last() =~= front.update(i, (front[i].0, v)));
        lemma_map_of_update(front, i, v);
        assert(entries.last().0 != entries[i].0);
        assert(map_of(updated) =~= map_of(entries).insert(entries[i].0, v));
    }
}

/// The index of the entry named `key`.
fn find<V>(entries: &Vec<(Vec<u8>, V)>, key: &[u8]) -> (r: Option<usize>)
    ensures
        match r {
            Some(i) => i < entries@.len() && entries@[i as int].0@ == key@,
            None => forall|i: int| 0 <= i < entries@.len() ==> entries@[i].0@ != key@,
        },
{
    let mut i: usize = 0;
    while i < entries.len()
        invariant
            i <= entries@.len(),
            forall|j: int| 0 <= j < i ==> entries@[j].0@ != key@,
        decreases entries@.len() - i,
    {
        if bytes_eq(entries[i].0.as_slice(), key) {
            return Some(i);
        }
        i = i + 1;
    }
    None
}

/// A table from names to values.
#[derive(Debug)]
pub struct Table<V> {
    entries: Vec<(Vec<u8>, V)>,
}

impl<V> View for Table<V> {
    type V = Map<Seq<u8>, V>;

    closed spec fn view(&self) -> Map<Seq<u8>, V> {
        map_of(self.pairs())
    }
}

impl<V> Table<V> {
    /// The entries, names as byte strings, in the order they were first inserted.
    pub closed spec fn pairs(&self) -> Seq<(Seq<u8>, V)> {
        self.entries@.map_values(|e: (Vec<u8>, V)| (e.0@, e.1))
    }

    #[verifier::type_invariant]
    closed spec fn names_once(self) -> bool {
        keys_distinct(self.pairs())
    }

    /// The number of entries.
    pub closed spec fn size(&self) -> nat {
        self.entries@.len()
    }

    /// The name of entry `i`.
    pub closed spec fn key_at(&self, i: int) -> Seq<u8> {
        self.entries@[i].0@
    }

    /// An empty table.
    pub fn new() -> (t: Self)
        ensures
            t@ == Map::<Seq<u8>, V>::empty(),
            t.size() == 0,
    {
        let entries: Vec<(Vec<u8>, V)> = Vec::new();
        assert(entries@.map_values(|e: (Vec<u8>, V)| (e.0@, e.1)) =~= Seq::empty());
        Table { entries }
    }

    /// Inserts `value` under `key`, replacing the value that was there.
    pub fn insert(&mut self, key: &[u8], value: V)
        ensures
            final(self)@ == old(self)@.insert(key@, value),
    {
        proof {
            use_type_invariant(&*self);
        }
        let ghost before = self.pairs();
        let mut entries: Vec<(Vec<u8>, V)> = Vec::new();
        std::mem::swap(&mut entries, &mut self.entries);
        assert(entries@.map_values(|e: (Vec<u8>, V)| (e.0@, e.1)) == before);
        let found = find(&entries, key);
        let k = vstd::slice::slice_to_vec(key);
        match found {
            Some(i) => {
                entries.set(i, (k, value));
                proof {
                    let after = entries@.map_values(|e: (Vec<u8>, V)| (e.0@, e.1));
                    assert(before[i as int].0 == key@);
                    assert(after =~= before.update(i as int, (before[i as int].0, value)));
                    lemma_map_of_update(before, i as int, value);
                    assert(keys_distinct(after)) by {
                        assert forall|a: int, b: int| 0 <= a < b < after.len() implies after[a].0 != after[b].0 by {
                            assert(after[a].0 == before[a].0);
                            assert(after[b].0 == before[b].0);
                        }
                    }
                }
            },
            None => {
                entries.push((k, value));
                proof {
                    let after = entries@.map_values(|e: (Vec<u8>, V)| (e.0@, e.1));
                    assert(after.drop_last() =~= before);
                    assert forall|j: int| 0 <= j < before.len() implies before[j].0 != key@ by {
                        assert(before[j].0 == entries@[j].0@);
                    }
                    assert(keys_distinct(after)) by {
                        assert forall|a: int, b: int| 0 <= a < b < after.len() implies after[a].0 != after[b].0 by {
                            assert(after[a].0 == before[a].0);
                            if b < before.len() {
                                assert(after[b].0 == before[b].0);
                            }
                        }
                    }
                }
            },
        }
        self.entries = entries;
    }

    /// The value under `key`, where there is one.
    pub fn get(&self, key: &[u8]) -> (r: Option<&V>)
        ensures
            match r {
                Some(v) => self@.contains_key(key@) && self@[key@] == *v,
                None => !self@.contains_key(key@),
            },
    {
        proof {
            use_type_invariant(self);
        }
        let ghost es = self.pairs();
        match find(&self.entries, key) {
            Some(i) => {
                proof {
                    assert(es[i as int].0 == key@);
                    assert forall|j: int| i < j < es.len() implies es[j].0 != key@ by {
                        assert(es[j].0 == self.entries@[j].0@);
                        assert(es[i as int].0 == self.entries@[i as int].0@);
                    }
                    lemma_map_of_last(es, key@, i as int);
                }
                Some(&self.entries[i].1)
            },
            None => {
                proof {
                    assert forall|j: int| 0 <= j < es.len() implies es[j].0 != key@ by {
                        assert(es[j].0 == self.entries@[j].0@);
                    }
                    lemma_map_of_absent(es, key@);
                }
                None
            },
        }
    }

    /// The number of entries; the entries are the map, each name once.
    pub fn len(&self) -> (n: usize)
        ensures
            n == self.size(),
            forall|i: int| 0 <= i < self.size() ==> #[trigger] self@.contains_key(self.key_at(i)),
            forall|i: int, j: int| 0 <= i < j < self.size() ==> self.key_at(i) != self.key_at(j),
            forall|k: Seq<u8>| #[trigger] self@.contains_key(k) ==> exists|i: int| 0 <= i < self.size() && self.key_at(i) == k,
    {
        proof {
            use_type_invariant(self);
            let es = self.pairs();
            assert forall|i: int| 0 <= i < self.size() implies #[trigger] self@.contains_key(self.key_at(i)) by {
                assert(es[i].0 == self.key_at(i));
                assert forall|j: int| i < j < es.len() implies es[j].0 != self.key_at(i) by {
                    assert(es[j].0 == self.key_at(j));
                }
                lemma_map_of_last(es, self.key_at(i), i);
            }
            assert forall|i: int, j: int| 0 <= i < j < self.size() implies self.key_at(i) != self.key_at(j) by {
                assert(es[i].0 == self.key_at(i));
                assert(es[j].0 == self.key_at(j));
            }
            assert forall|k: Seq<u8>| #[trigger] self@.contains_key(k) implies exists|i: int|
                0 <= i < self.size() && self.key_at(i) == k by {
                if forall|i: int| 0 <= i < self.size() ==> self.key_at(i) != k {
                    assert forall|j: int| 0 <= j < es.len() implies es[j].0 != k by {
                        assert(es[j].0 == self.key_at(j));
                    }
                    lemma_map_of_absent(es, k);
                }
            }
        }
        self.entries.len()
    }

    /// Entry `i`: its name and its value.
    pub fn entry_at(&self, i: usize) -> (e: (&[u8], &V))
        requires
            i < self.size(),
        ensures
            e.0@ == self.key_at(i as int),
            self@.contains_key(e.0@),
            *e.1 == self@[e.0@],
    {
        proof {
            use_type_invariant(self);
            let es = self.pairs();
            assert(es[i as int].0 == self.key_at(i as int));
            assert forall|j: int| i < j < es.len() implies es[j].0 != self.key_at(i as int) by {
                assert(es[j].0 == self.key_at(j));
            }
            lemma_map_of_last(es, self.key_at(i as int), i as int);
        }
        (self.entries[i].0.as_slice(), &self.entries[i].1)
    }

    /// Replaces the value of entry `i`.
    pub fn set_at(&mut self, i: usize, value: V)
        requires
            i < old(self).size(),
        ensures
            final(self)@ == old(self)@.insert(old(self).key_at(i as int), value),
            final(self).size() == old(self).size(),
            forall|j: int| 0 <= j < old(self).size() ==> #[trigger] final(self).key_at(j) == old(self).key_at(j),
    {
        proof {
            use_type_invariant(&*self);
        }
        let ghost before = self.pairs();
        let mut entries: Vec<(Vec<u8>, V)> = Vec::new();
        std::mem::swap(&mut entries, &mut self.entries);
        let (k, _) = entries.remove(i);
        entries.insert(i, (k, value));
        proof {
            let after = entries@.map_values(|e: (Vec<u8>, V)| (e.0@, e.1));
            assert(after =~= before.update(i as int, (before[i as int].0, value)));
            lemma_map_of_update(before, i as int, value);
        }
        self.entries = entries;
    }
}

/// What a lookup gives back after an insert (see `Table::insert` and
/// `Table::get`): the value inserted under its own name, and under any other
/// name what was there before.
pub proof fn lemma_insert_then_get<V>(before: Map<Seq<u8>, V>, key: Seq<u8>, value: V, other: Seq<u8>)
    ensures
        before.insert(key, value).contains_key(key),
        before.insert(key, value)[key] == value,
        other != key ==> (before.insert(key, value).contains_key(other) <==> before.contains_key(other)),
        other != key && before.contains_key(other) ==> before.insert(key, value)[other] == before[other],
{
}

} // verus!

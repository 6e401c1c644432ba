//! A table of values by name. The values stand in a vector; a `DashMap` finds the
//! place of each by its name.
use dashmap::DashMap;
use vstd::prelude::*;

verus! {

/// The sharded hash map of the `dashmap` crate.
#[verifier::external_type_specification]
#[verifier::external_body]
#[verifier::reject_recursive_types(K)]
#[verifier::reject_recursive_types(V)]
#[verifier::reject_recursive_types(S)]
pub struct ExDashMap<K, V, S>(DashMap<K, V, S>);

/// The places that an index holds, by name.
pub uninterp spec fn places(index: DashMap<String, usize>) -> Map<Seq<char>, usize>;

/// `DashMap::new`: a map without entries.
#[verifier::external_body]
fn index_new() -> (r: DashMap<String, usize>)
    ensures
        places(r).dom() == Set::<Seq<char>>::empty(),
{
    DashMap::new()
}

/// `DashMap::insert`: sets the value under the key, whether or not the key was there.
/// The value that it replaces is not handed on.
#[verifier::external_body]
fn index_insert(index: &mut DashMap<String, usize>, key: String, place: usize)
    ensures
        places(*final(index)) == places(*old(index)).insert(key@, place),
{
    index.insert(key, place);
}

/// `DashMap::get`: the value under the key, copied out of the guard.
#[verifier::external_body]
fn index_get(index: &DashMap<String, usize>, key: &str) -> (r: Option<usize>)
    ensures
        r == (if places(*index).contains_key(key@) {
            Some(places(*index)[key@])
        } else {
            None
        }),
{
    index.get(key).map(|place| *place)
}

/// `DashMap::remove`: takes the entry under the key out, where there is one.
#[verifier::external_body]
fn index_remove(index: &mut DashMap<String, usize>, key: &str)
    ensures
        places(*final(index)) == places(*old(index)).remove(key@),
{
    index.remove(key);
}

/// A name and the value under it.
#[derive(Debug)]
pub struct Entry<T> {
    pub key: String,
    pub value: T,
}

/// Whether the entries are those of a map, each once.
pub open spec fn lists_map<T>(rows: Seq<Entry<T>>, m: Map<Seq<char>, T>) -> bool {
    &&& forall|i: int|
        0 <= i < rows.len() ==> m.contains_key((#[trigger] rows[i]).key@) && m[rows[i].key@]
            == rows[i].value
    &&& forall|k: Seq<char>| #[trigger]
        m.contains_key(k) ==> exists|i: int|
            0 <= i < rows.len() && (#[trigger] rows[i]).key@ == k
    &&& forall|i: int, j: int|
        0 <= i < rows.len() && 0 <= j < rows.len() && (#[trigger] rows[i]).key@ == (
        #[trigger] rows[j]).key@ ==> i == j
}

/// Values by name, each name at most once.
pub struct Table<T> {
    index: DashMap<String, usize>,
    entries: Vec<Entry<T>>,
}

impl<T> Table<T> {
    /// The entries in the order of their places.
    pub closed spec fn rows(self) -> Seq<Entry<T>> {
        self.entries@
    }

    /// The names in the order of their places.
    pub open spec fn keys(self) -> Seq<Seq<char>> {
        self.rows().map_values(|e: Entry<T>| e.key@)
    }

    /// The index finds each name at its place, and nothing else.
    pub closed spec fn wf(self) -> bool {
        &&& forall|k: Seq<char>| #[trigger]
            places(self.index).contains_key(k) ==> places(self.index)[k] < self.entries@.len()
                && self.entries@[places(self.index)[k] as int].key@ == k
        &&& forall|i: int|
            0 <= i < self.entries@.len() ==> places(self.index).contains_key(
                (#[trigger] self.entries@[i]).key@,
            ) && places(self.index)[self.entries@[i].key@] == i
    }

    /// The values by name.
    pub closed spec fn view(self) -> Map<Seq<char>, T> {
        Map::new(
            |k: Seq<char>| places(self.index).contains_key(k),
            |k: Seq<char>| self.entries@[places(self.index)[k] as int].value,
        )
    }

    /// Each place holds a name of the table with its value, and no name twice.
    pub proof fn lemma_rows(self)
        requires
            self.wf(),
        ensures
            forall|i: int|
                0 <= i < self.rows().len() ==> self@.contains_key((#[trigger] self.rows()[i]).key@)
                    && self@[self.rows()[i].key@] == self.rows()[i].value,
            forall|k: Seq<char>| #[trigger]
                self@.contains_key(k) ==> exists|i: int|
                    0 <= i < self.rows().len() && (#[trigger] self.rows()[i]).key@ == k,
            forall|i: int, j: int|
                0 <= i < self.rows().len() && 0 <= j < self.rows().len()
                    && (#[trigger] self.rows()[i]).key@ == (#[trigger] self.rows()[j]).key@ ==> i == j,
    {
        assert forall|k: Seq<char>| #[trigger] self@.contains_key(k) implies exists|i: int|
            0 <= i < self.rows().len() && (#[trigger] self.rows()[i]).key@ == k by {
            let i = places(self.index)[k] as int;
            assert(self.rows()[i].key@ == k);
        }
    }

    /// A table without names.
    pub fn new() -> (r: Table<T>)
        ensures
            r.wf(),
            r@ == Map::<Seq<char>, T>::empty(),
            r.rows() == Seq::<Entry<T>>::empty(),
    {
        let r: Table<T> = Table { index: index_new(), entries: Vec::new() };
        assert(r@ =~= Map::<Seq<char>, T>::empty());
        r
    }

    /// The number of names.
    pub fn len(&self) -> (r: usize)
        ensures
            r == self.rows().len(),
    {
        self.entries.len()
    }

    /// The place of a name.
    pub fn place_of(&self, key: &str) -> (r: Option<usize>)
        requires
            self.wf(),
        ensures
            match r {
                Some(i) => i < self.rows().len() && self.rows()[i as int].key@ == key@
                    && self@.contains_key(key@) && self@[key@] == self.rows()[i as int].value,
                None => !self@.contains_key(key@),
            },
    {
        index_get(&self.index, key)
    }

    /// Whether the name is there.
    pub fn contains_key(&self, key: &str) -> (r: bool)
        requires
            self.wf(),
        ensures
            r == self@.contains_key(key@),
    {
        self.place_of(key).is_some()
    }

    /// The value under a name.
    pub fn get(&self, key: &str) -> (r: Option<&T>)
        requires
            self.wf(),
        ensures
            match r {
                Some(v) => self@.contains_key(key@) && self@[key@] == *v,
                None => !self@.contains_key(key@),
            },
    {
        match self.place_of(key) {
            Some(i) => Some(&self.entries[i].value),
            None => None,
        }
    }

    /// The name at a place.
    pub fn key_at(&self, i: usize) -> (r: &String)
        requires
            i < self.rows().len(),
        ensures
            r@ == self.rows()[i as int].key@,
            r@ == self.keys()[i as int],
    {
        &self.entries[i].key
    }

    /// The value at a place.
    pub fn value_at(&self, i: usize) -> (r: &T)
        requires
            i < self.rows().len(),
        ensures
            *r == self.rows()[i as int].value,
    {
        &self.entries[i].value
    }

    /// The value at a place, to be changed there.
    pub fn value_mut(&mut self, i: usize) -> (r: &mut T)
        requires
            old(self).wf(),
            i < old(self).rows().len(),
        ensures
            *r == old(self).rows()[i as int].value,
            final(self).wf(),
            final(self).keys() == old(self).keys(),
            final(self).rows() == old(self).rows().update(
                i as int,
                Entry { key: old(self).rows()[i as int].key, value: *final(r) },
            ),
            final(self)@ == old(self)@.insert(old(self).rows()[i as int].key@, *final(r)),
    {
        &mut self.entries[i].value
    }

    /// Sets the value under a name and hands back the one that it replaces. A new
    /// name takes the place behind the last one.
    pub fn insert(&mut self, key: String, value: T) -> (r: Option<T>)
        requires
            old(self).wf(),
        ensures
            final(self).wf(),
            final(self)@ == old(self)@.insert(key@, value),
            match r {
                Some(v) => old(self)@.contains_key(key@) && v == old(self)@[key@]
                    && final(self).keys() == old(self).keys(),
                None => !old(self)@.contains_key(key@)
                    && final(self).keys() == old(self).keys().push(key@)
                    && final(self).rows() == old(self).rows().push(Entry { key, value }),
            },
    {
        match self.place_of(key.as_str()) {
            Some(i) => {
                let mut value = value;
                std::mem::swap(self.value_mut(i), &mut value);
                Some(value)
            },
            None => {
                let ghost before = *self;
                let ghost k = key@;
                let place: usize = self.entries.len();
                index_insert(&mut self.index, key.clone(), place);
                self.entries.push(Entry { key, value });
                proof {
                    assert(self.rows() =~= before.rows().push(Entry { key, value }));
                    assert(self.keys() =~= before.keys().push(k));
                    assert(self@ =~= before@.insert(k, value));
                }
                None
            },
        }
    }

    /// Takes a name and its value out. The last entry takes the free place.
    pub fn remove(&mut self, key: &str) -> (r: Option<T>)
        requires
            old(self).wf(),
        ensures
            final(self).wf(),
            final(self)@ == old(self)@.remove(key@),
            match r {
                Some(v) => old(self)@.contains_key(key@) && v == old(self)@[key@]
                    && final(self).rows().len() == old(self).rows().len() - 1,
                None => !old(self)@.contains_key(key@) && *final(self) == *old(self),
            },
    {
        match self.place_of(key) {
            None => {
                assert(self@.remove(key@) =~= self@);
                None
            },
            Some(i) => {
                let ghost before = *self;
                let last: usize = self.entries.len() - 1;
                index_remove(&mut self.index, key);
                if i < last {
                    let moved = self.entries[last].key.clone();
                    index_insert(&mut self.index, moved, i);
                }
                let entry = self.entries.swap_remove(i);
                proof {
                    assert forall|j: int| 0 <= j < self.entries@.len() implies places(
                        self.index,
                    ).contains_key((#[trigger] self.entries@[j]).key@) && places(
                        self.index,
                    )[self.entries@[j].key@] == j by {
                        if j == i {
                            assert(self.entries@[j] == before.entries@[last as int]);
                        } else {
                            assert(self.entries@[j] == before.entries@[j]);
                            assert(before.entries@[last as int].key@ != before.entries@[j].key@);
                        }
                    }
                    assert forall|k: Seq<char>| #[trigger]
                        places(self.index).contains_key(k) implies places(self.index)[k]
                        < self.entries@.len() && self.entries@[places(self.index)[k] as int].key@
                        == k by {
                        assert(places(before.index).contains_key(k));
                        let p = places(before.index)[k] as int;
                        if p == last {
                            assert(before.entries@[last as int].key@ == k);
                        } else {
                            assert(before.entries@[p].key@ == k);
                            assert(before.entries@[last as int].key@ != k);
                        }
                    }
                    assert(self@ =~= before@.remove(key@)) by {
                        assert forall|k: Seq<char>| self@.contains_key(k) implies self@[k]
                            == before@[k] by {
                            let p = places(before.index)[k] as int;
                            assert(before.entries@[p].key@ == k);
                        }
                    }
                }
                Some(entry.value)
            },
        }
    }
}

} // verus!

//! A list of values by name, each name at most once.
use vstd::prelude::*;

use crate::table::Entry;
use crate::text::str_eq;

verus! {

/// Values by name in the order in which the names came.
#[derive(Debug)]
pub struct Assoc<T> {
    entries: Vec<Entry<T>>,
}

/// The position of a name among the entries, or their number where it is not there.
pub open spec fn place_in<T>(rows: Seq<Entry<T>>, key: Seq<char>) -> int
    decreases rows.len(),
{
    if rows.len() == 0 || rows[0].key@ == key {
        0
    } else {
        1 + place_in(rows.drop_first(), key)
    }
}

proof fn lemma_place_in<T>(rows: Seq<Entry<T>>, key: Seq<char>, i: int)
    requires
        0 <= i <= rows.len(),
        forall|j: int| 0 <= j < i ==> (#[trigger] rows[j]).key@ != key,
        i == rows.len() || rows[i].key@ == key,
    ensures
        place_in(rows, key) == i,
    decreases rows.len(),
{
    if i > 0 {
        let t = rows.drop_first();
        assert forall|j: int| 0 <= j < i - 1 implies (#[trigger] t[j]).key@ != key by {
            assert(t[j] == rows[j + 1]);
        }
        lemma_place_in(t, key, i - 1);
    }
}

proof fn lemma_place_bounds<T>(rows: Seq<Entry<T>>, key: Seq<char>)
    ensures
        0 <= place_in(rows, key) <= rows.len(),
        place_in(rows, key) < rows.len() ==> rows[place_in(rows, key)].key@ == key,
        forall|j: int| 0 <= j < place_in(rows, key) ==> (#[trigger] rows[j]).key@ != key,
    decreases rows.len(),
{
    if rows.len() > 0 && rows[0].key@ != key {
        let t = rows.drop_first();
        lemma_place_bounds(t, key);
        assert forall|j: int| 0 <= j < place_in(rows, key) implies (#[trigger] rows[j]).key@
            != key by {
            if j > 0 {
                assert(rows[j] == t[j - 1]);
            }
        }
    }
}

impl<T> Assoc<T> {
    /// The entries in their order.
    pub closed spec fn rows(self) -> Seq<Entry<T>> {
        self.entries@
    }

    /// No name stands twice.
    pub open spec fn wf(self) -> bool {
        forall|i: int, j: int|
            0 <= i < self.rows().len() && 0 <= j < self.rows().len() && (
            #[trigger] self.rows()[i]).key@ == (#[trigger] self.rows()[j]).key@ ==> i == j
    }

    /// The values by name.
    pub open spec fn view(self) -> Map<Seq<char>, T> {
        Map::new(
            |k: Seq<char>| place_in(self.rows(), k) < self.rows().len(),
            |k: Seq<char>| self.rows()[place_in(self.rows(), k)].value,
        )
    }

    /// Each entry holds a name with its value.
    pub proof fn lemma_rows(self)
        requires
            self.wf(),
        ensures
            forall|i: int|
                0 <= i < self.rows().len() ==> self@.contains_key((#[trigger] self.rows()[i]).key@)
                    && self@[self.rows()[i].key@] == self.rows()[i].value,
            forall|k: Seq<char>| #[trigger]
                self@.contains_key(k) ==> exists|i: int|
                    0 <= i < self.rows().len() && (#[trigger] self.rows()[i]).key@ == k,
    {
        assert forall|i: int| 0 <= i < self.rows().len() implies self@.contains_key(
            (#[trigger] self.rows()[i]).key@,
        ) && self@[self.rows()[i].key@] == self.rows()[i].value by {
            lemma_place_in(self.rows(), self.rows()[i].key@, i);
        }
        assert forall|k: Seq<char>| #[trigger] self@.contains_key(k) implies exists|i: int|
            0 <= i < self.rows().len() && (#[trigger] self.rows()[i]).key@ == k by {
            lemma_place_bounds(self.rows(), k);
            let i = place_in(self.rows(), k);
            assert(self.rows()[i].key@ == k);
        }
    }

    /// A list without names.
    pub fn new() -> (r: Assoc<T>)
        ensures
            r.wf(),
            r@ == Map::<Seq<char>, T>::empty(),
            r.rows() == Seq::<Entry<T>>::empty(),
    {
        let r: Assoc<T> = Assoc { entries: Vec::new() };
        assert(r@ =~= Map::<Seq<char>, T>::empty());
        r
    }

    /// The number of names.
    pub fn len(&self) -> (r: usize)
        ensures
            r == self.rows().len(),
    {
        self.entries.len()
    }

    /// The position of a name.
    pub fn place_of(&self, key: &str) -> (r: Option<usize>)
        ensures
            match r {
                Some(i) => i < self.rows().len() && i == place_in(self.rows(), key@)
                    && self.rows()[i as int].key@ == key@ && self@.contains_key(key@) && self@[key@]
                    == self.rows()[i as int].value,
                None => !self@.contains_key(key@) && forall|j: int|
                    0 <= j < self.rows().len() ==> (#[trigger] self.rows()[j]).key@ != key@,
            },
    {
        let mut i: usize = 0;
        while i < self.entries.len()
            invariant
                i <= self.entries@.len(),
                forall|j: int| 0 <= j < i ==> (#[trigger] self.entries@[j]).key@ != key@,
            decreases self.entries@.len() - i,
        {
            if str_eq(self.entries[i].key.as_str(), key) {
                proof {
                    lemma_place_in(self.rows(), key@, i as int);
                }
                return Some(i);
            }
            i = i + 1;
        }
        proof {
            lemma_place_in(self.rows(), key@, i as int);
        }
        None
    }

    /// Whether the name is there.
    pub fn contains_key(&self, key: &str) -> (r: bool)
        ensures
            r == self@.contains_key(key@),
    {
        self.place_of(key).is_some()
    }

    /// The value under a name.
    pub fn get(&self, key: &str) -> (r: Option<&T>)
        ensures
            match r {
                Some(v) => self@.contains_key(key@) && self@[key@] == *v,
                None => !self@.contains_key(key@),
            },
    {
        match self.place_of(key) {
            Some(i) => Some(&self.entries[i].value),
            None => None,
        }
    }

    /// The name at a position.
    pub fn key_at(&self, i: usize) -> (r: &String)
        requires
            i < self.rows().len(),
        ensures
            r@ == self.rows()[i as int].key@,
    {
        &self.entries[i].key
    }

    /// The value at a position.
    pub fn value_at(&self, i: usize) -> (r: &T)
        requires
            i < self.rows().len(),
        ensures
            *r == self.rows()[i as int].value,
    {
        &self.entries[i].value
    }

    /// The value at a position, to be changed there.
    pub fn value_mut(&mut self, i: usize) -> (r: &mut T)
        requires
            old(self).wf(),
            i < old(self).rows().len(),
        ensures
            *r == old(self).rows()[i as int].value,
            final(self).wf(),
            final(self).rows() == old(self).rows().update(
                i as int,
                Entry { key: old(self).rows()[i as int].key, value: *final(r) },
            ),
    {
        &mut self.entries[i].value
    }

    /// Replacing the value of an entry replaces what is found under its name, and
    /// nothing else.
    pub proof fn lemma_updated(before: Self, after: Self, i: int, value: T)
        requires
            before.wf(),
            after.wf(),
            0 <= i < before.rows().len(),
            after.rows() == before.rows().update(
                i,
                Entry { key: before.rows()[i].key, value },
            ),
        ensures
            after@ == before@.insert(before.rows()[i].key@, value),
    {
        let key = before.rows()[i].key@;
        assert forall|k: Seq<char>| place_in(after.rows(), k) == place_in(before.rows(), k) by {
            lemma_place_bounds(before.rows(), k);
            let p = place_in(before.rows(), k);
            assert forall|j: int| 0 <= j < p implies (#[trigger] after.rows()[j]).key@ != k by {
                assert(before.rows()[j].key@ != k);
            }
            lemma_place_in(after.rows(), k, p);
        }
        lemma_place_in(before.rows(), key, i);
        assert(after@ =~= before@.insert(key, value)) by {
            assert forall|k: Seq<char>| before@.contains_key(k) && k != key implies after@[k]
                == before@[k] by {
                lemma_place_bounds(before.rows(), k);
            }
        }
    }

    /// Sets the value under a name and hands back the one that it replaces. A new
    /// name goes behind the others.
    pub fn insert(&mut self, key: String, value: T) -> (r: Option<T>)
        requires
            old(self).wf(),
        ensures
            final(self).wf(),
            final(self)@ == old(self)@.insert(key@, value),
            match r {
                Some(v) => {
                    &&& old(self)@.contains_key(key@)
                    &&& v == old(self)@[key@]
                    &&& final(self).rows() == old(self).rows().update(
                        place_in(old(self).rows(), key@),
                        Entry {
                            key: old(self).rows()[place_in(old(self).rows(), key@)].key,
                            value,
                        },
                    )
                },
                None => {
                    &&& !old(self)@.contains_key(key@)
                    &&& final(self).rows() == old(self).rows().push(Entry { key, value })
                },
            },
    {
        match self.place_of(key.as_str()) {
            Some(i) => {
                let ghost before = *self;
                let ghost given = value;
                let mut value = value;
                std::mem::swap(self.value_mut(i), &mut value);
                proof {
                    Self::lemma_updated(before, *self, i as int, given);
                }
                Some(value)
            },
            None => {
                let ghost before = *self;
                let ghost k = key@;
                let ghost entry = Entry { key, value };
                self.entries.push(Entry { key, value });
                proof {
                    let rows = self.rows();
                    assert(rows =~= before.rows().push(entry));
                    assert forall|q: Seq<char>| place_in(rows, q) == (if q == k {
                        before.rows().len() as int
                    } else if place_in(before.rows(), q) < before.rows().len() {
                        place_in(before.rows(), q)
                    } else {
                        rows.len() as int
                    }) by {
                        lemma_place_bounds(before.rows(), q);
                        let p = place_in(before.rows(), q);
                        let target = if q == k {
                            before.rows().len() as int
                        } else if p < before.rows().len() {
                            p
                        } else {
                            rows.len() as int
                        };
                        assert forall|j: int| 0 <= j < target implies (#[trigger] rows[j]).key@
                            != q by {
                            if j < before.rows().len() {
                                assert(rows[j] == before.rows()[j]);
                            }
                        }
                        lemma_place_in(rows, q, target);
                    }
                    assert(self@ =~= before@.insert(k, value)) by {
                        assert forall|q: Seq<char>| before@.contains_key(q) implies self@[q]
                            == before@.insert(k, value)[q] by {
                            lemma_place_bounds(before.rows(), q);
                        }
                    }
                }
                None
            },
        }
    }

    /// Takes a name and its value out. The entries behind it move up.
    pub fn remove(&mut self, key: &str) -> (r: Option<T>)
        requires
            old(self).wf(),
        ensures
            final(self).wf(),
            final(self)@ == old(self)@.remove(key@),
            match r {
                Some(v) => {
                    &&& old(self)@.contains_key(key@)
                    &&& v == old(self)@[key@]
                    &&& final(self).rows() == old(self).rows().remove(
                        place_in(old(self).rows(), key@),
                    )
                },
                None => !old(self)@.contains_key(key@) && *final(self) == *old(self),
            },
    {
        match self.place_of(key) {
            None => {
                assert(self@.remove(key@) =~= self@);
                None
            },
            Some(i) => {
                let ghost before = *self;
                let entry = self.entries.remove(i);
                proof {
                    let rows = self.rows();
                    let old_rows = before.rows();
                    assert(rows =~= old_rows.remove(i as int));
                    assert forall|a: int, b: int|
                        0 <= a < rows.len() && 0 <= b < rows.len() && (#[trigger] rows[a]).key@ == (
                        #[trigger] rows[b]).key@ implies a == b by {
                        let a2 = if a < i {
                            a
                        } else {
                            a + 1
                        };
                        let b2 = if b < i {
                            b
                        } else {
                            b + 1
                        };
                        assert(rows[a] == old_rows[a2] && rows[b] == old_rows[b2]);
                    }
                    assert forall|q: Seq<char>| place_in(rows, q) == (if q == key@ {
                        rows.len() as int
                    } else if place_in(old_rows, q) < i {
                        place_in(old_rows, q)
                    } else {
                        place_in(old_rows, q) - 1
                    }) by {
                        lemma_place_bounds(old_rows, q);
                        let p = place_in(old_rows, q);
                        let target = if q == key@ {
                            rows.len() as int
                        } else if p < i {
                            p
                        } else {
                            p - 1
                        };
                        if q != key@ && p == i {
                            assert(old_rows[i as int].key@ == key@);
                        }
                        assert forall|j: int| 0 <= j < target implies (#[trigger] rows[j]).key@
                            != q by {
                            let j2 = if j < i {
                                j
                            } else {
                                j + 1
                            };
                            assert(rows[j] == old_rows[j2]);
                            if q == key@ {
                                assert(old_rows[j2].key@ != old_rows[i as int].key@);
                            }
                        }
                        lemma_place_in(rows, q, target);
                    }
                    assert(self@ =~= before@.remove(key@)) by {
                        assert forall|q: Seq<char>| #[trigger]
                            self@.contains_key(q) == before@.remove(key@).contains_key(q) by {
                            lemma_place_bounds(old_rows, q);
                        }
                        assert forall|q: Seq<char>| self@.contains_key(q) implies self@[q]
                            == before@[q] by {
                            lemma_place_bounds(old_rows, q);
                        }
                    }
                }
                Some(entry.value)
            },
        }
    }
}

} // verus!

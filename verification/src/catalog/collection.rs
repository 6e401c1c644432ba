//! Descriptors by their identifiers, with the text of the file that each came from.
use vstd::prelude::*;

use crate::assoc::Assoc;
use crate::table::Entry;
use crate::text::{chars_of, slice_string, str_eq};

verus! {

/// The position of the last dot of a text, or -1 where it has none.
pub open spec fn last_dot(name: Seq<char>) -> int
    decreases name.len(),
{
    if name.len() == 0 {
        -1
    } else if name.last() == '.' {
        name.len() - 1
    } else {
        last_dot(name.drop_last())
    }
}

/// What follows the last dot of a file's name; none where there is no dot, or but a
/// leading one.
pub open spec fn extension_of(name: Seq<char>) -> Option<Seq<char>> {
    if name == ".."@ || last_dot(name) <= 0 {
        None
    } else {
        Some(name.skip(last_dot(name) + 1))
    }
}

/// The extension of a file's name.
pub fn extension(name: &str) -> (r: Option<String>)
    ensures
        match r {
            Some(e) => extension_of(name@) == Some(e@),
            None => extension_of(name@) is None,
        },
{
    if str_eq(name, "..") {
        return None;
    }
    let cs: Vec<char> = chars_of(name);
    let mut i: usize = cs.len();
    assert(name@.take(i as int) =~= name@);
    while i > 0
        invariant
            i <= cs@.len(),
            cs@ == name@,
            name@ != ".."@,
            last_dot(name@) == last_dot(name@.take(i as int)),
        decreases i,
    {
        proof {
            assert(name@.take(i as int).drop_last() =~= name@.take(i - 1));
            assert(name@.take(i as int).last() == name@[i - 1]);
        }
        if cs[i - 1] == '.' {
            if i == 1 {
                return None;
            }
            assert(name@.skip(i as int) =~= name@.subrange(i as int, name@.len() as int));
            return Some(slice_string(cs.as_slice(), i, cs.len()));
        }
        i = i - 1;
    }
    None
}

/// Whether a file of this name belongs to a catalog.
pub fn is_catalog_file(name: &str) -> (r: bool)
    ensures
        r == (extension_of(name@) == Some("toml"@)),
{
    match extension(name) {
        Some(e) => str_eq(e.as_str(), "toml"),
        None => false,
    }
}

/// The extension of a name is what follows its last dot, whatever stands before that dot, if
/// anything does; a name without a dot has none.
pub proof fn law_extension_follows_the_last_dot(stem: Seq<char>, ext: Seq<char>)
    requires
        !ext.contains('.'),
    ensures
        stem.len() > 0 && ext.len() > 0 ==> extension_of(stem + seq!['.'] + ext) == Some(ext),
        extension_of(ext) is None,
        extension_of(seq!['.'] + ext) is None,
{
    reveal_strlit("..");
    let name = stem + seq!['.'] + ext;
    lemma_last_dot(stem, ext);
    if ext.len() > 0 {
        assert(name != ".."@) by {
            assert(name.last() == ext.last());
            assert(ext.contains(ext.last()));
        }
        assert(name.skip((stem.len() + 1) as int) =~= ext);
    }
    lemma_last_dot(Seq::empty(), ext);
    assert(Seq::<char>::empty() + seq!['.'] + ext =~= seq!['.'] + ext);
    lemma_no_dot(ext);
}

proof fn lemma_no_dot(s: Seq<char>)
    requires
        !s.contains('.'),
    ensures
        last_dot(s) == -1,
    decreases s.len(),
{
    if s.len() > 0 {
        assert(s.contains(s[s.len() - 1]));
        let front = s.drop_last();
        assert(!front.contains('.')) by {
            if front.contains('.') {
                let i = choose|i: int| 0 <= i < front.len() && front[i] == '.';
                assert(s[i] == '.');
            }
        }
        lemma_no_dot(front);
    }
}

proof fn lemma_last_dot(stem: Seq<char>, ext: Seq<char>)
    requires
        !ext.contains('.'),
    ensures
        last_dot(stem + seq!['.'] + ext) == stem.len(),
    decreases ext.len(),
{
    let name = stem + seq!['.'] + ext;
    if ext.len() > 0 {
        assert(ext.contains(ext[ext.len() - 1]));
        let front = ext.drop_last();
        assert(!front.contains('.')) by {
            if front.contains('.') {
                let i = choose|i: int| 0 <= i < front.len() && front[i] == '.';
                assert(ext[i] == '.');
            }
        }
        lemma_last_dot(stem, front);
        assert(name.drop_last() =~= stem + seq!['.'] + front);
        assert(name.last() == ext.last());
    } else {
        assert(name.last() == '.');
    }
}

/// Descriptors by their identifiers.
pub struct Catalog<D> {
    items: Assoc<D>,
    sources: Assoc<String>,
}

impl<D: View> Catalog<D> {
    /// Each descriptor has a source, and nothing else has one.
    pub closed spec fn wf(self) -> bool {
        &&& self.items.wf()
        &&& self.sources.wf()
        &&& self.items@.dom() == self.sources@.dom()
    }

    /// The descriptors by identifier.
    pub closed spec fn view(self) -> Map<Seq<char>, D::V> {
        Map::new(|k: Seq<char>| self.items@.contains_key(k), |k: Seq<char>| self.items@[k]@)
    }

    /// The texts that the descriptors came from.
    pub closed spec fn texts(self) -> Map<Seq<char>, Seq<char>> {
        Map::new(|k: Seq<char>| self.sources@.contains_key(k), |k: Seq<char>| self.sources@[k]@)
    }

    /// The identifiers in the order in which the descriptors are listed.
    pub closed spec fn ids(self) -> Seq<Seq<char>> {
        self.items.rows().map_values(|e: Entry<D>| e.key@)
    }

    /// The listed identifiers are those of the descriptors, each once, and each
    /// descriptor has its source.
    pub proof fn lemma_ids(self)
        requires
            self.wf(),
        ensures
            self.texts().dom() == self@.dom(),
            self.ids().no_duplicates(),
            forall|k: Seq<char>| #[trigger] self@.contains_key(k) <==> self.ids().contains(k),
    {
        self.items.lemma_rows();
        assert(self.texts().dom() =~= self.sources@.dom());
        assert(self@.dom() =~= self.items@.dom());
        assert forall|k: Seq<char>| #[trigger] self@.contains_key(k) implies self.ids().contains(
            k,
        ) by {
            let i = choose|i: int|
                0 <= i < self.items.rows().len() && (#[trigger] self.items.rows()[i]).key@ == k;
            assert(self.ids()[i] == k);
        }
        assert forall|k: Seq<char>| self.ids().contains(k) implies #[trigger] self@.contains_key(
            k,
        ) by {
            let i = choose|i: int| 0 <= i < self.ids().len() && self.ids()[i] == k;
            assert(self.items@.contains_key(self.items.rows()[i].key@));
        }
    }

    /// A catalog without descriptors.
    pub fn new() -> (r: Self)
        ensures
            r.wf(),
            r@ == Map::<Seq<char>, D::V>::empty(),
            r.texts() == Map::<Seq<char>, Seq<char>>::empty(),
    {
        let r: Catalog<D> = Catalog { items: Assoc::new(), sources: Assoc::new() };
        assert(r@ =~= Map::<Seq<char>, D::V>::empty());
        assert(r.texts() =~= Map::<Seq<char>, Seq<char>>::empty());
        r
    }

    /// Keeps a descriptor and its source in place of those that had the identifier.
    pub fn put(&mut self, id: String, item: D, source: String)
        requires
            old(self).wf(),
        ensures
            final(self).wf(),
            final(self)@ == old(self)@.insert(id@, item@),
            final(self).texts() == old(self).texts().insert(id@, source@),
    {
        let key = id.clone();
        let _ = self.items.insert(key, item);
        let _ = self.sources.insert(id, source);
        assert(self@ =~= old(self)@.insert(id@, item@));
        assert(self.texts() =~= old(self).texts().insert(id@, source@));
    }

    /// The descriptor of an identifier.
    pub fn get(&self, id: &str) -> (r: Option<&D>)
        requires
            self.wf(),
        ensures
            match r {
                Some(d) => self@.contains_key(id@) && self@[id@] == d@,
                None => !self@.contains_key(id@),
            },
    {
        self.items.get(id)
    }

    /// The text that a descriptor came from.
    pub fn get_source(&self, id: &str) -> (r: Option<String>)
        requires
            self.wf(),
        ensures
            match r {
                Some(s) => self.texts().contains_key(id@) && self.texts()[id@] == s@,
                None => !self.texts().contains_key(id@),
            },
    {
        match self.sources.get(id) {
            Some(s) => Some(s.clone()),
            None => None,
        }
    }

    /// The descriptor at a place of the list.
    pub fn nth(&self, i: usize) -> (r: &D)
        requires
            self.wf(),
            i < self.ids().len(),
        ensures
            self@.contains_key(self.ids()[i as int]),
            r@ == self@[self.ids()[i as int]],
    {
        proof {
            self.items.lemma_rows();
        }
        self.items.value_at(i)
    }

    /// The number of descriptors.
    pub fn len(&self) -> (r: usize)
        ensures
            r == self.ids().len(),
    {
        self.items.len()
    }
}

} // verus!

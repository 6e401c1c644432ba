//! Provider instances, each in a file of its own.
use vstd::prelude::*;

use crate::text;
use crate::text::{concat2, join_path, str_eq};

verus! {

/// An instance of a provider as its file describes it.
#[derive(Debug)]
pub struct ProviderInstance {
    pub id: String,
    pub type_id: String,
    pub name: String,
    /// The file of the instance.
    pub document: String,
}

/// Keeps instances as files of a directory, each named after its instance.
#[derive(Debug)]
pub struct TomlProviderInstanceRepository {
    base_path: String,
}

/// The positions of the instances of a type.
pub open spec fn positions_of_type(all: Seq<ProviderInstance>, type_id: Seq<char>) -> Seq<int>
    decreases all.len(),
{
    if all.len() == 0 {
        seq![]
    } else {
        let before = positions_of_type(all.drop_last(), type_id);
        if all.last().type_id@ == type_id {
            before.push(all.len() - 1)
        } else {
            before
        }
    }
}

impl TomlProviderInstanceRepository {
    /// The directory of the files.
    pub closed spec fn base(self) -> Seq<char> {
        self.base_path@
    }

    /// Where the file of an instance lies.
    pub open spec fn path_of(self, name: Seq<char>) -> Seq<char> {
        text::joined_path(self.base(), name + ".toml"@)
    }

    /// A repository over a directory.
    pub fn new(base_path: String) -> (r: Self)
        ensures
            r.base() == base_path@,
    {
        TomlProviderInstanceRepository { base_path }
    }

    /// Where the file of an instance lies.
    pub fn instance_path(&self, name: &str) -> (r: String)
        ensures
            r@ == self.path_of(name@),
            r@ == text::joined_path(self.base(), name@ + ".toml"@),
    {
        let file = concat2(name, ".toml");
        join_path(self.base_path.as_str(), file.as_str())
    }

    /// The position of the first instance with an id among those that were read.
    pub fn find_by_id(all: &Vec<ProviderInstance>, id: &str) -> (r: Option<usize>)
        ensures
            match r {
                Some(i) => i < all@.len() && all@[i as int].id@ == id@ && forall|j: int|
                    0 <= j < i ==> (#[trigger] all@[j]).id@ != id@,
                None => forall|j: int| 0 <= j < all@.len() ==> (#[trigger] all@[j]).id@ != id@,
            },
    {
        let mut i: usize = 0;
        while i < all.len()
            invariant
                i <= all@.len(),
                forall|j: int| 0 <= j < i ==> (#[trigger] all@[j]).id@ != id@,
            decreases all@.len() - i,
        {
            if str_eq(all[i].id.as_str(), id) {
                return Some(i);
            }
            i = i + 1;
        }
        None
    }

    /// The positions of the instances of a type among those that were read.
    pub fn list_by_type(all: &Vec<ProviderInstance>, type_id: &str) -> (r: Vec<usize>)
        ensures
            r@.len() == positions_of_type(all@, type_id@).len(),
            forall|k: int|
                0 <= k < r@.len() ==> (#[trigger] r@[k]) == positions_of_type(all@, type_id@)[k],
            forall|k: int|
                0 <= k < r@.len() ==> (#[trigger] r@[k]) < all@.len() && all@[r@[k] as int].type_id@
                    == type_id@,
            forall|j: int|
                0 <= j < all@.len() && (#[trigger] all@[j]).type_id@ == type_id@ ==> exists|k: int|
                    0 <= k < r@.len() && (#[trigger] r@[k]) == j,
    {
        proof {
            law_instances_of_a_type(all@, type_id@);
        }
        let mut out: Vec<usize> = Vec::new();
        let mut i: usize = 0;
        assert(all@.take(0) =~= seq![]);
        while i < all.len()
            invariant
                i <= all@.len(),
                out@.len() == positions_of_type(all@.take(i as int), type_id@).len(),
                forall|k: int|
                    0 <= k < out@.len() ==> (#[trigger] out@[k]) == positions_of_type(
                        all@.take(i as int),
                        type_id@,
                    )[k],
            decreases all@.len() - i,
        {
            proof {
                assert(all@.take(i + 1).drop_last() =~= all@.take(i as int));
                assert(all@.take(i + 1).last() == all@[i as int]);
            }
            if str_eq(all[i].type_id.as_str(), type_id) {
                out.push(i);
            }
            i = i + 1;
        }
        assert(all@.take(i as int) =~= all@);
        proof {
            let positions = positions_of_type(all@, type_id@);
            assert forall|k: int| 0 <= k < out@.len() implies (#[trigger] out@[k]) < all@.len()
                && all@[out@[k] as int].type_id@ == type_id@ by {
                assert(positions.contains(positions[k]));
            }
            assert forall|j: int|
                0 <= j < all@.len() && (#[trigger] all@[j]).type_id@ == type_id@ implies exists|
                k: int,
            | 0 <= k < out@.len() && (#[trigger] out@[k]) == j by {
                assert(positions.contains(j));
                let k = choose|k: int| 0 <= k < positions.len() && positions[k] == j;
                assert(out@[k] == j);
            }
        }
        out
    }

    /// The file to remove for the instance with an id; none where there is no such
    /// instance, which is no error.
    pub fn delete(&self, all: &Vec<ProviderInstance>, id: &str) -> (r: Option<String>)
        ensures
            match r {
                Some(path) => exists|i: int|
                    0 <= i < all@.len() && (#[trigger] all@[i]).id@ == id@ && path@ == self.path_of(
                        all@[i].name@,
                    ) && forall|j: int| 0 <= j < i ==> (#[trigger] all@[j]).id@ != id@,
                None => forall|j: int| 0 <= j < all@.len() ==> (#[trigger] all@[j]).id@ != id@,
            },
    {
        match Self::find_by_id(all, id) {
            Some(i) => {
                let path = self.instance_path(all[i].name.as_str());
                assert(all@[i as int].id@ == id@);
                Some(path)
            },
            None => None,
        }
    }
}

/// A listing by type holds every instance of the type, once and in its order, and no other.
pub proof fn law_instances_of_a_type(all: Seq<ProviderInstance>, type_id: Seq<char>)
    ensures
        ({
            let positions = positions_of_type(all, type_id);
            &&& forall|k: int, l: int|
                0 <= k < l < positions.len() ==> #[trigger] positions[k] < #[trigger] positions[l]
            &&& forall|k: int|
                0 <= k < positions.len() ==> 0 <= #[trigger] positions[k] < all.len()
            &&& forall|j: int|
                0 <= j < all.len() ==> (positions.contains(j) <==> (#[trigger] all[j]).type_id@
                    == type_id)
        }),
    decreases all.len(),
{
    if all.len() > 0 {
        let front = all.drop_last();
        let n = all.len() - 1;
        law_instances_of_a_type(front, type_id);
        let before = positions_of_type(front, type_id);
        let after = positions_of_type(all, type_id);
        assert forall|j: int| 0 <= j < all.len() implies (after.contains(j) <==> (
        #[trigger] all[j]).type_id@ == type_id) by {
            if j < n {
                assert(front[j] == all[j]);
                if before.contains(j) {
                    let k = choose|k: int| 0 <= k < before.len() && before[k] == j;
                    assert(after[k] == j);
                }
                if after.contains(j) {
                    let k = choose|k: int| 0 <= k < after.len() && after[k] == j;
                    assert(before[k] == j);
                }
            } else {
                if all[n].type_id@ == type_id {
                    assert(after[after.len() - 1] == n);
                } else if after.contains(n) {
                    let k = choose|k: int| 0 <= k < after.len() && after[k] == n;
                    assert(before[k] < front.len());
                }
            }
        }
    }
}

} // verus!

//! JSON documents as values.
use vstd::prelude::*;

use crate::text;
use crate::text::str_eq;

verus! {

/// A member of an object.
#[derive(Debug)]
pub struct Member {
    pub name: String,
    pub value: Json,
}

/// A JSON document.
#[derive(Debug)]
pub enum Json {
    Null,
    Bool(bool),
    Number(u64),
    Text(String),
    List(Vec<Json>),
    Object(Vec<Member>),
}

/// A JSON document with its texts as characters and its lists as sequences.
pub enum JsonView {
    Null,
    Bool(bool),
    Number(u64),
    Text(Seq<char>),
    List(Seq<JsonView>),
    Object(Seq<(Seq<char>, JsonView)>),
}

impl Json {
    pub open spec fn view(self) -> JsonView
        decreases self,
    {
        match self {
            Json::Null => JsonView::Null,
            Json::Bool(b) => JsonView::Bool(b),
            Json::Number(n) => JsonView::Number(n),
            Json::Text(s) => JsonView::Text(s@),
            Json::List(v) => JsonView::List(
                Seq::new(
                    v@.len(),
                    |i: int|
                        if 0 <= i < v@.len() {
                            v@[i].view()
                        } else {
                            arbitrary()
                        },
                ),
            ),
            Json::Object(v) => JsonView::Object(
                Seq::new(
                    v@.len(),
                    |i: int|
                        if 0 <= i < v@.len() {
                            (v@[i].name@, v@[i].value.view())
                        } else {
                            arbitrary()
                        },
                ),
            ),
        }
    }
}

/// The views of a list of documents.
pub open spec fn json_views(v: Seq<Json>) -> Seq<JsonView> {
    v.map_values(|j: Json| j@)
}

/// The views of the members of an object.
pub open spec fn member_views(v: Seq<Member>) -> Seq<(Seq<char>, JsonView)> {
    v.map_values(|m: Member| (m.name@, m.value@))
}

/// A text.
pub fn text(s: &str) -> (r: Json)
    ensures
        r@ == JsonView::Text(s@),
{
    Json::Text(s.to_owned())
}

/// A text, or nothing.
pub open spec fn text_or_null(s: Option<String>) -> JsonView {
    match s {
        Some(t) => JsonView::Text(t@),
        None => JsonView::Null,
    }
}

/// A text, or nothing.
pub fn optional_text(s: &Option<String>) -> (r: Json)
    ensures
        r@ == text_or_null(*s),
        *s matches Some(t) ==> r@ == JsonView::Text(t@),
        *s is None ==> r@ is Null,
{
    match s {
        Some(t) => Json::Text(t.clone()),
        None => Json::Null,
    }
}

/// A list.
pub fn list(v: Vec<Json>) -> (r: Json)
    ensures
        r@ == JsonView::List(json_views(v@)),
        r@->List_0.len() == v@.len(),
        forall|i: int| 0 <= i < v@.len() ==> #[trigger] r@->List_0[i] == v@[i]@,
{
    let r = Json::List(v);
    assert(r@->List_0 =~= json_views(v@));
    r
}

/// An object.
pub fn object(v: Vec<Member>) -> (r: Json)
    ensures
        r@ == JsonView::Object(member_views(v@)),
        r@->Object_0.len() == v@.len(),
        forall|i: int|
            0 <= i < v@.len() ==> #[trigger] r@->Object_0[i] == (v@[i].name@, v@[i].value@),
{
    let r = Json::Object(v);
    assert(r@->Object_0 =~= member_views(v@));
    r
}

/// A member of an object.
pub fn member(name: &str, value: Json) -> (r: Member)
    ensures
        r.name@ == name@,
        r.value == value,
{
    Member { name: name.to_owned(), value }
}

/// The texts as a list of text documents.
pub open spec fn text_views(v: Seq<Seq<char>>) -> Seq<JsonView> {
    v.map_values(|s: Seq<char>| JsonView::Text(s))
}

/// A list of texts.
pub fn text_list(v: &Vec<String>) -> (r: Json)
    ensures
        r@ == JsonView::List(text_views(text::texts(v@))),
        r@->List_0.len() == v@.len(),
        forall|i: int| 0 <= i < v@.len() ==> #[trigger] r@->List_0[i] == JsonView::Text(v@[i]@),
{
    let mut out: Vec<Json> = Vec::new();
    let mut i: usize = 0;
    while i < v.len()
        invariant
            i <= v@.len(),
            out@.len() == i,
            forall|j: int| 0 <= j < i ==> (#[trigger] out@[j])@ == JsonView::Text(v@[j]@),
        decreases v@.len() - i,
    {
        out.push(text(v[i].as_str()));
        i = i + 1;
    }
    assert(json_views(out@) =~= text_views(text::texts(v@)));
    list(out)
}

/// The value of the first member with a name.
pub open spec fn member_value(v: Seq<(Seq<char>, JsonView)>, name: Seq<char>) -> Option<JsonView>
    decreases v.len(),
{
    if v.len() == 0 {
        None
    } else if v[0].0 == name {
        Some(v[0].1)
    } else {
        member_value(v.drop_first(), name)
    }
}

impl Json {
    /// The value of a member, where the document is an object that has it.
    pub fn get(&self, name: &str) -> (r: Option<&Json>)
        ensures
            match self@ {
                JsonView::Object(v) => match (r, member_value(v, name@)) {
                    (Some(j), Some(w)) => j@ == w,
                    (None, None) => true,
                    _ => false,
                },
                _ => r is None,
            },
    {
        match self {
            Json::Object(members) => {
                let mut i: usize = 0;
                let ghost all = self@->Object_0;
                assert(all.skip(0) =~= all);
                while i < members.len()
                    invariant
                        i <= members@.len(),
                        *self == Json::Object(*members),
                        all == self@->Object_0,
                        all.len() == members@.len(),
                        member_value(all.skip(i as int), name@) == member_value(all, name@),
                    decreases members@.len() - i,
                {
                    proof {
                        assert(all.skip(i as int)[0] == all[i as int]);
                        assert(all[i as int] == (
                            members@[i as int].name@,
                            members@[i as int].value@,
                        ));
                        assert(all.skip(i as int).drop_first() =~= all.skip(i + 1));
                    }
                    if str_eq(members[i].name.as_str(), name) {
                        return Some(&members[i].value);
                    }
                    i = i + 1;
                }
                None
            },
            _ => None,
        }
    }

    /// The text, where the document is one.
    pub fn as_text(&self) -> (r: Option<&str>)
        ensures
            match (self@, r) {
                (JsonView::Text(s), Some(t)) => t@ == s,
                (JsonView::Text(_), None) => false,
                (_, Some(_)) => false,
                (_, None) => true,
            },
    {
        match self {
            Json::Text(s) => Some(s.as_str()),
            _ => None,
        }
    }

    /// The items, where the document is a list.
    pub fn items(&self) -> (r: Option<&Vec<Json>>)
        ensures
            match r {
                Some(v) => self@ == JsonView::List(json_views(v@)),
                None => !(self@ is List),
            },
    {
        match self {
            Json::List(v) => {
                assert(self@->List_0 =~= json_views(v@));
                Some(v)
            },
            _ => None,
        }
    }
}

/// What is found under a name is the value of the first member of that name, and nothing is
/// found where no member has it.
pub proof fn law_first_member_counts(v: Seq<(Seq<char>, JsonView)>, name: Seq<char>, i: int)
    requires
        0 <= i <= v.len(),
        forall|j: int| 0 <= j < i ==> (#[trigger] v[j]).0 != name,
        i < v.len() ==> v[i].0 == name,
    ensures
        i < v.len() ==> member_value(v, name) == Some(v[i].1),
        i == v.len() ==> member_value(v, name) is None,
    decreases v.len(),
{
    if i > 0 {
        let rest = v.drop_first();
        assert forall|j: int| 0 <= j < i - 1 implies (#[trigger] rest[j]).0 != name by {
            assert(rest[j] == v[j + 1]);
        }
        if i < v.len() {
            assert(rest[i - 1] == v[i]);
        }
        assert(v[0].0 != name);
        law_first_member_counts(rest, name, i - 1);
    }
}

} // verus!

//! JSON documents as plain values: what the service reads and writes,
//! modelled with objects as finite maps.

use vstd::prelude::*;

use crate::data::Dup;
use crate::text::same_text;

verus! {

/// What a document says. An object is a map from member names to values;
/// a number is an integer, or the text of any other number.
#[verifier::ext_equal]
pub enum JsonView {
    Null,
    Bool(bool),
    Num(int),
    Other(Seq<char>),
    Str(Seq<char>),
    Arr(Seq<JsonView>),
    Obj(Map<Seq<char>, JsonView>),
}

/// A JSON document. An object lists its members; of two members of the
/// same name the later one counts.
#[derive(Debug, PartialEq, Eq)]
pub enum Json {
    Null,
    Bool(bool),
    Uint(u64),
    Int(i64),
    Other(String),
    Str(String),
    Arr(Vec<Json>),
    Obj(Vec<(String, Json)>),
}

pub open spec fn json_view(j: Json) -> JsonView
    decreases j, 0nat,
{
    match j {
        Json::Null => JsonView::Null,
        Json::Bool(b) => JsonView::Bool(b),
        Json::Uint(n) => JsonView::Num(n as int),
        Json::Int(n) => JsonView::Num(n as int),
        Json::Other(t) => JsonView::Other(t@),
        Json::Str(t) => JsonView::Str(t@),
        Json::Arr(v) => JsonView::Arr(items_view(v@)),
        Json::Obj(v) => JsonView::Obj(members_view(v@)),
    }
}

pub open spec fn items_view(s: Seq<Json>) -> Seq<JsonView>
    decreases s, s.len(),
{
    if s.len() == 0 {
        Seq::empty()
    } else {
        items_view(s.drop_last()).push(json_view(s.last()))
    }
}

pub open spec fn members_view(s: Seq<(String, Json)>) -> Map<Seq<char>, JsonView>
    decreases s, s.len(),
{
    if s.len() == 0 {
        Map::empty()
    } else {
        members_view(s.drop_last()).insert(s.last().0@, json_view(s.last().1))
    }
}

impl DeepView for Json {
    type V = JsonView;

    open spec fn deep_view(&self) -> JsonView {
        json_view(*self)
    }
}

impl View for Json {
    type V = JsonView;

    open spec fn view(&self) -> JsonView {
        json_view(*self)
    }
}

impl JsonView {
    /// An object without members.
    pub open spec fn object() -> JsonView {
        JsonView::Obj(Map::empty())
    }

    /// The object with one member set.
    pub open spec fn put(self, name: Seq<char>, value: JsonView) -> JsonView {
        match self {
            JsonView::Obj(m) => JsonView::Obj(m.insert(name, value)),
            _ => self,
        }
    }

    /// The member of that name, of an object that has one.
    pub open spec fn get(self, name: Seq<char>) -> Option<JsonView> {
        match self {
            JsonView::Obj(m) => if m.dom().contains(name) {
                Some(m[name])
            } else {
                None
            },
            _ => None,
        }
    }

    /// The text of a string.
    pub open spec fn as_str(self) -> Option<Seq<char>> {
        match self {
            JsonView::Str(t) => Some(t),
            _ => None,
        }
    }

    /// The value of an integer of 64 bits without sign.
    pub open spec fn as_u64(self) -> Option<u64> {
        match self {
            JsonView::Num(n) => if 0 <= n <= u64::MAX {
                Some(n as u64)
            } else {
                None
            },
            _ => None,
        }
    }

    /// The items of an array.
    pub open spec fn as_array(self) -> Option<Seq<JsonView>> {
        match self {
            JsonView::Arr(s) => Some(s),
            _ => None,
        }
    }

    /// The text of the string member of that name.
    pub open spec fn str_at(self, name: Seq<char>) -> Option<Seq<char>> {
        match self.get(name) {
            Some(v) => v.as_str(),
            None => None,
        }
    }

    /// The number of the member of that name.
    pub open spec fn u64_at(self, name: Seq<char>) -> Option<u64> {
        match self.get(name) {
            Some(v) => v.as_u64(),
            None => None,
        }
    }

    /// The items of the array member of that name.
    pub open spec fn array_at(self, name: Seq<char>) -> Option<Seq<JsonView>> {
        match self.get(name) {
            Some(v) => v.as_array(),
            None => None,
        }
    }
}

/// A string, or null.
pub open spec fn text_or_null(t: Option<Seq<char>>) -> JsonView {
    match t {
        Some(t) => JsonView::Str(t),
        None => JsonView::Null,
    }
}

/// The items of an array view one by one.
pub proof fn lemma_items_view(s: Seq<Json>)
    ensures
        items_view(s).len() == s.len(),
        forall|i: int| 0 <= i < s.len() ==> #[trigger] items_view(s)[i] == json_view(s[i]),
    decreases s.len(),
{
    if s.len() > 0 {
        lemma_items_view(s.drop_last());
        assert forall|i: int| 0 <= i < s.len() implies #[trigger] items_view(s)[i] == json_view(
            s[i],
        ) by {
            if i < s.len() - 1 {
                assert(items_view(s.drop_last())[i] == json_view(s.drop_last()[i]));
            }
        }
    }
}

/// An array view is the view of each item.
pub broadcast proof fn lemma_items_deep(v: Vec<Json>)
    ensures
        #[trigger] items_view(v@) == v.deep_view(),
{
    lemma_items_view(v@);
    assert(items_view(v@) =~= v.deep_view());
}

fn copy(j: &Json) -> (r: Json)
    ensures
        r@ == j@,
    decreases *j,
{
    match j {
        Json::Null => Json::Null,
        Json::Bool(b) => Json::Bool(*b),
        Json::Uint(n) => Json::Uint(*n),
        Json::Int(n) => Json::Int(*n),
        Json::Other(t) => Json::Other(t.clone()),
        Json::Str(t) => Json::Str(t.clone()),
        Json::Arr(v) => {
            let mut out: Vec<Json> = Vec::new();
            for k in 0..v.len()
                invariant
                    *j == Json::Arr(*v),
                    items_view(out@) == items_view(v@.take(k as int)),
            {
                proof {
                    assert(decreases_to!(*j => j->Arr_0));
                    assert(decreases_to!(*v => v@));
                    assert(decreases_to!(v@ => v@[k as int]));
                }
                let item = copy(&v[k]);
                let ghost before = out@;
                out.push(item);
                assert(out@.drop_last() =~= before);
                assert(v@.take(k + 1).drop_last() =~= v@.take(k as int));
            }
            assert(v@.take(v@.len() as int) =~= v@);
            Json::Arr(out)
        },
        Json::Obj(v) => {
            let mut out: Vec<(String, Json)> = Vec::new();
            for k in 0..v.len()
                invariant
                    *j == Json::Obj(*v),
                    members_view(out@) == members_view(v@.take(k as int)),
            {
                proof {
                    assert(decreases_to!(*j => j->Obj_0));
                    assert(decreases_to!(*v => v@));
                    assert(decreases_to!(v@ => v@[k as int]));
                    assert(decreases_to!(v@[k as int] => v@[k as int].1));
                }
                let name = v[k].0.clone();
                let value = copy(&v[k].1);
                let ghost before = out@;
                out.push((name, value));
                assert(out@.drop_last() =~= before);
                assert(v@.take(k + 1).drop_last() =~= v@.take(k as int));
            }
            assert(v@.take(v@.len() as int) =~= v@);
            Json::Obj(out)
        },
    }
}

impl Dup for Json {
    fn dup(&self) -> (r: Json) {
        copy(self)
    }
}

impl Json {
    /// An object without members.
    pub fn object() -> (r: Json)
        ensures
            r@ == JsonView::object(),
    {
        Json::Obj(Vec::new())
    }

    /// A string.
    pub fn text(t: &str) -> (r: Json)
        ensures
            r@ == JsonView::Str(t@),
    {
        Json::Str(t.to_owned())
    }

    /// A string, or null.
    pub fn opt_text(t: &Option<String>) -> (r: Json)
        ensures
            r@ == text_or_null(t.deep_view()),
    {
        match t {
            Some(t) => Json::text(t.as_str()),
            None => Json::Null,
        }
    }

    /// An array.
    pub fn list(v: Vec<Json>) -> (r: Json)
        ensures
            r@ == JsonView::Arr(v.deep_view()),
    {
        proof {
            lemma_items_deep(v);
        }
        Json::Arr(v)
    }

    /// Set one member of an object.
    pub fn with(self, name: &str, value: Json) -> (r: Json)
        ensures
            r@ == self@.put(name@, value@),
    {
        match self {
            Json::Obj(v) => {
                let mut v = v;
                let ghost before = v@;
                v.push((name.to_owned(), value));
                assert(v@.drop_last() =~= before);
                Json::Obj(v)
            },
            other => other,
        }
    }

    /// The member of that name, of an object that has one.
    pub fn get(&self, name: &str) -> (r: Option<&Json>)
        ensures
            match r {
                Some(v) => self@.get(name@) == Some(v@),
                None => self@.get(name@) is None,
            },
    {
        match self {
            Json::Obj(v) => {
                let mut k: usize = v.len();
                assert(v@.take(k as int) =~= v@);
                while k > 0
                    invariant
                        *self == Json::Obj(*v),
                        k <= v@.len(),
                        members_view(v@).dom().contains(name@) == members_view(
                            v@.take(k as int),
                        ).dom().contains(name@),
                        members_view(v@).dom().contains(name@) ==> members_view(v@)[name@]
                            == members_view(v@.take(k as int))[name@],
                    decreases k,
                {
                    assert(v@.take(k as int).drop_last() =~= v@.take(k - 1));
                    if same_text(v[k - 1].0.as_str(), name) {
                        return Some(&v[k - 1].1);
                    }
                    k = k - 1;
                }
                None
            },
            _ => None,
        }
    }

    pub fn is_object(&self) -> (r: bool)
        ensures
            r == (self@ is Obj),
    {
        match self {
            Json::Obj(_) => true,
            _ => false,
        }
    }

    pub fn is_null(&self) -> (r: bool)
        ensures
            r == (self@ is Null),
    {
        match self {
            Json::Null => true,
            _ => false,
        }
    }

    /// The text of a string.
    pub fn as_str(&self) -> (r: Option<&str>)
        ensures
            match r {
                Some(t) => self@.as_str() == Some(t@),
                None => self@.as_str() is None,
            },
    {
        match self {
            Json::Str(t) => Some(t.as_str()),
            _ => None,
        }
    }

    /// The value of an integer of 64 bits without sign.
    pub fn as_u64(&self) -> (r: Option<u64>)
        ensures
            r == self@.as_u64(),
    {
        match self {
            Json::Uint(n) => Some(*n),
            Json::Int(n) => if *n >= 0 {
                Some(*n as u64)
            } else {
                None
            },
            _ => None,
        }
    }

    /// The items of an array.
    pub fn as_array(&self) -> (r: Option<&Vec<Json>>)
        ensures
            match r {
                Some(v) => self@.as_array() == Some(v.deep_view()),
                None => self@.as_array() is None,
            },
    {
        match self {
            Json::Arr(v) => {
                proof {
                    lemma_items_deep(*v);
                }
                Some(v)
            },
            _ => None,
        }
    }

    /// The text of the string member of that name.
    pub fn str_at(&self, name: &str) -> (r: Option<&str>)
        ensures
            match r {
                Some(t) => self@.str_at(name@) == Some(t@),
                None => self@.str_at(name@) is None,
            },
    {
        match self.get(name) {
            Some(v) => v.as_str(),
            None => None,
        }
    }

    /// The number of the member of that name.
    pub fn u64_at(&self, name: &str) -> (r: Option<u64>)
        ensures
            r == self@.u64_at(name@),
    {
        match self.get(name) {
            Some(v) => v.as_u64(),
            None => None,
        }
    }

    /// The items of the array member of that name.
    pub fn array_at(&self, name: &str) -> (r: Option<&Vec<Json>>)
        ensures
            match r {
                Some(v) => self@.array_at(name@) == Some(v.deep_view()),
                None => self@.array_at(name@) is None,
            },
    {
        match self.get(name) {
            Some(v) => v.as_array(),
            None => None,
        }
    }
}

/// A member that is put is the one that is read under its name, and the
/// members of other names stay; nothing is read of what is no object.
pub proof fn law_members(d: JsonView, name: Seq<char>, value: JsonView, other: Seq<char>)
    ensures
        d is Obj ==> d.put(name, value).get(name) == Some(value),
        other != name ==> d.put(name, value).get(other) == d.get(other),
        JsonView::object().get(name) is None,
        !(d is Obj) ==> d.get(name) is None,
        d.str_at(name) is Some <==> d.get(name) matches Some(JsonView::Str(_)),
        d.str_at(name) matches Some(t) ==> d.get(name) == Some(JsonView::Str(t)),
        d.array_at(name) matches Some(s) ==> d.get(name) == Some(JsonView::Arr(s)),
        d.array_at(name) is Some <==> d.get(name) matches Some(JsonView::Arr(_)),
        d.u64_at(name) matches Some(n) ==> d.get(name) == Some(JsonView::Num(n as int)),
        d.u64_at(name) is Some <==> (d.get(name) matches Some(JsonView::Num(n)) && 0 <= n
            <= 18_446_744_073_709_551_615),
{
}

/// A text is written as a string, and no text as null.
pub proof fn law_text_or_null(t: Option<Seq<char>>)
    ensures
        t is None <==> text_or_null(t) == JsonView::Null,
        text_or_null(t).as_str() == t,
{
}

/// A document's view is the document: a text its characters, a number its
/// value, a list its items in their order, and an object its members, of
/// which the last of a name counts.
pub proof fn law_views_of_documents(t: String, n: u64, z: i64, v: Vec<Json>, m: Vec<(String, Json)>)
    ensures
        Json::Str(t)@ == JsonView::Str(t@),
        Json::Uint(n)@ == JsonView::Num(n as int),
        Json::Int(z)@ == JsonView::Num(z as int),
        Json::Bool(true)@ == JsonView::Bool(true) && Json::Bool(false)@ == JsonView::Bool(false),
        Json::Null@ == JsonView::Null,
        Json::Arr(v)@ matches JsonView::Arr(s) && s.len() == v@.len() && forall|i: int|
            0 <= i < v@.len() ==> #[trigger] s[i] == v@[i]@,
        Json::Obj(m)@ is Obj,
        forall|i: int|
            0 <= i < m@.len() && (forall|k: int|
                i < k < m@.len() ==> (#[trigger] m@[k]).0@ != m@[i].0@) ==> Json::Obj(m)@.get(
                (#[trigger] m@[i]).0@,
            ) == Some(m@[i].1@),
        forall|name: Seq<char>|
            Json::Obj(m)@.get(name) is Some ==> exists|i: int|
                0 <= i < m@.len() && (#[trigger] m@[i]).0@ == name,
{
    lemma_items(v@);
    lemma_last_member(m@);
}

proof fn lemma_items(s: Seq<Json>)
    ensures
        items_view(s).len() == s.len(),
        forall|i: int| 0 <= i < s.len() ==> #[trigger] items_view(s)[i] == json_view(s[i]),
    decreases s.len(),
{
    if s.len() > 0 {
        lemma_items(s.drop_last());
    }
}

proof fn lemma_last_member(s: Seq<(String, Json)>)
    ensures
        forall|i: int|
            0 <= i < s.len() && (forall|k: int| i < k < s.len() ==> (#[trigger] s[k]).0@ != s[i].0@)
                ==> members_view(s).dom().contains((#[trigger] s[i]).0@)
                && members_view(s)[s[i].0@] == json_view(s[i].1),
        forall|name: Seq<char>|
            #[trigger] members_view(s).dom().contains(name) ==> exists|i: int|
                0 <= i < s.len() && (#[trigger] s[i]).0@ == name,
    decreases s.len(),
{
    if s.len() > 0 {
        let t = s.drop_last();
        lemma_last_member(t);
        assert forall|i: int|
            0 <= i < s.len() && (forall|k: int| i < k < s.len() ==> (#[trigger] s[k]).0@ != s[i].0@) implies
            members_view(s).dom().contains((#[trigger] s[i]).0@) && members_view(s)[s[i].0@]
            == json_view(s[i].1) by {
            if i < t.len() {
                assert(t[i] == s[i]);
                assert(s[s.len() - 1].0@ != s[i].0@);
                assert forall|k: int| i < k < t.len() implies (#[trigger] t[k]).0@ != t[i].0@ by {
                    assert(t[k] == s[k]);
                }
            }
        }
        assert forall|name: Seq<char>| #[trigger] members_view(s).dom().contains(name) implies exists|
            i: int,
        |
            0 <= i < s.len() && (#[trigger] s[i]).0@ == name by {
            if s.last().0@ == name {
                assert(s[s.len() - 1].0@ == name);
            } else {
                assert(members_view(t).dom().contains(name));
                let i = choose|i: int| 0 <= i < t.len() && (#[trigger] t[i]).0@ == name;
                assert(s[i] == t[i]);
            }
        }
    }
}

} // verus!

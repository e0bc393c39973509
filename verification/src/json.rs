//! JSON documents as plain values.
//!
//! An object keeps its members in the order of their names and holds each name once; a number with
//! a fraction or an exponent is carried as the text it was written in.

use vstd::prelude::*;

use crate::keyed;
use crate::text;

verus! {

/// A JSON document.
#[derive(Debug, PartialEq, Eq)]
pub enum Json {
    Null,
    Bool(bool),
    /// A whole number.
    Int(i128),
    /// Any other number, as written.
    Fraction(String),
    Text(String),
    List(Vec<Json>),
    Object(Vec<(String, Json)>),
}

/// The contents of a [`Json`].
pub enum JsonView {
    Null,
    Bool(bool),
    Int(int),
    Fraction(Seq<char>),
    Text(Seq<char>),
    List(Seq<JsonView>),
    Object(Seq<(Seq<char>, JsonView)>),
}

/// The contents of a document.
pub open spec fn contents(j: Json) -> JsonView
    decreases j,
{
    match j {
        Json::Null => JsonView::Null,
        Json::Bool(b) => JsonView::Bool(b),
        Json::Int(i) => JsonView::Int(i as int),
        Json::Fraction(s) => JsonView::Fraction(s@),
        Json::Text(s) => JsonView::Text(s@),
        Json::List(items) => JsonView::List(
            Seq::new(
                items@.len(),
                |i: int|
                    if 0 <= i < items@.len() {
                        contents(items@[i])
                    } else {
                        JsonView::Null
                    },
            ),
        ),
        Json::Object(members) => JsonView::Object(
            Seq::new(
                members@.len(),
                |i: int|
                    if 0 <= i < members@.len() {
                        (members@[i].0@, contents(members@[i].1))
                    } else {
                        (Seq::empty(), JsonView::Null)
                    },
            ),
        ),
    }
}

impl View for Json {
    type V = JsonView;

    open spec fn view(&self) -> JsonView {
        contents(*self)
    }
}

impl JsonView {
    /// The object without members.
    pub open spec fn empty() -> JsonView {
        JsonView::Object(Seq::empty())
    }

    /// This object with `value` as the member `name`.
    pub open spec fn with(self, name: Seq<char>, value: JsonView) -> JsonView {
        match self {
            JsonView::Object(members) => JsonView::Object(keyed::put(members, name, value)),
            other => other,
        }
    }

    /// The member `name`, where this is an object that has it.
    pub open spec fn member(self, name: Seq<char>) -> Option<JsonView> {
        match self {
            JsonView::Object(members) => keyed::lookup(members, name),
            _ => None,
        }
    }

    /// The text this document is.
    pub open spec fn text(self) -> Option<Seq<char>> {
        match self {
            JsonView::Text(s) => Some(s),
            _ => None,
        }
    }

    /// The text of the member `name`.
    pub open spec fn text_member(self, name: Seq<char>) -> Option<Seq<char>> {
        match self.member(name) {
            Some(v) => v.text(),
            None => None,
        }
    }
}

/// A text, or null where there is none.
pub open spec fn optional(s: Option<Seq<char>>) -> JsonView {
    match s {
        Some(s) => JsonView::Text(s),
        None => JsonView::Null,
    }
}

/// Reading a member of an object that was just given it, or another one.
pub proof fn member_with(j: JsonView, name: Seq<char>, value: JsonView, k: Seq<char>)
    requires
        j is Object,
    ensures
        j.with(name, value).member(k) == if k == name {
            Some(value)
        } else {
            j.member(k)
        },
{
    keyed::lookup_put(j->Object_0, name, value, k);
}

/// What every member of an object is after one was given.
pub proof fn members_with(j: JsonView, name: Seq<char>, value: JsonView)
    requires
        j is Object,
    ensures
        j.with(name, value) is Object,
        forall|k: Seq<char>| #[trigger]
            j.with(name, value).member(k) == if k == name {
                Some(value)
            } else {
                j.member(k)
            },
{
    assert forall|k: Seq<char>| #[trigger] j.with(name, value).member(k) == if k == name {
        Some(value)
    } else {
        j.member(k)
    } by {
        member_with(j, name, value, k);
    }
}

/// An empty object has no member, and what a member that is a text says is that text.
pub proof fn reading_members(j: JsonView, name: Seq<char>)
    ensures
        JsonView::empty() is Object,
        JsonView::empty().member(name) is None,
        j.text_member(name) == match j.member(name) {
            Some(JsonView::Text(s)) => Some(s),
            _ => None,
        },
{
}

impl Json {
    /// A text.
    pub fn text(s: &str) -> (r: Json)
        ensures
            r@ == JsonView::Text(s@),
    {
        Json::Text(s.to_owned())
    }

    /// A text, or null where there is none.
    pub fn optional(s: &Option<String>) -> (r: Json)
        ensures
            r@ == optional(
                match *s {
                    Some(t) => Some(t@),
                    None => None,
                },
            ),
    {
        match s {
            Some(t) => Json::text(t),
            None => Json::Null,
        }
    }

    /// A truth value.
    pub fn truth(b: bool) -> (r: Json)
        ensures
            r@ == JsonView::Bool(b),
    {
        Json::Bool(b)
    }

    /// A count.
    pub fn count(n: u64) -> (r: Json)
        ensures
            r@ == JsonView::Int(n as int),
    {
        Json::Int(n as i128)
    }

    /// The object without members.
    pub fn object() -> (r: Json)
        ensures
            r@ == JsonView::empty(),
    {
        let r = Json::Object(Vec::new());
        assert(r@->Object_0 =~= Seq::empty());
        r
    }

    /// This object with `value` as the member `name`; any other document unchanged.
    pub fn with(self, name: &str, value: Json) -> (r: Json)
        ensures
            r@ == self@.with(name@, value@),
    {
        let ghost whole = self@;
        match self {
            Json::Object(mut members) => {
                let ghost m = whole->Object_0;
                let ghost start = members@;
                let ghost v = value@;
                let mut i: usize = 0;
                assert(m.skip(0) =~= m);
                assert(m.take(0) + keyed::put(m.skip(0), name@, v) =~= keyed::put(m, name@, v));
                while i < members.len() && text::is_before(&members[i].0, name)
                    invariant
                        i <= members.len(),
                        members@ == start,
                        m.len() == members.len(),
                        forall|k: int|
                            0 <= k < m.len() ==> (#[trigger] m[k]) == (
                                members@[k].0@,
                                contents(members@[k].1),
                            ),
                        keyed::put(m, name@, v) == m.take(i as int) + keyed::put(
                            m.skip(i as int),
                            name@,
                            v,
                        ),
                    decreases members.len() - i,
                {
                    proof {
                        let s = m.skip(i as int);
                        assert(s[0] == m[i as int]);
                        text::before_total(s[0].0, name@);
                        text::before_irreflexive(name@);
                        assert(s.drop_first() =~= m.skip(i + 1));
                        assert(m.take(i as int) + (seq![s[0]] + keyed::put(s.drop_first(), name@, v))
                            =~= m.take(i + 1) + keyed::put(m.skip(i + 1), name@, v));
                    }
                    i = i + 1;
                }
                let ghost target = keyed::put(m, name@, v);
                proof {
                    text::before_irreflexive(name@);
                    if i < members.len() {
                        assert(m.skip(i as int)[0] == m[i as int]);
                        text::before_total(m[i as int].0, name@);
                    }
                }
                if i < members.len() && text::same(&members[i].0, name) {
                    assert(target =~= m.update(i as int, (name@, v)));
                    members.set(i, (name.to_owned(), value));
                } else {
                    assert(target =~= m.insert(i as int, (name@, v)));
                    members.insert(i, (name.to_owned(), value));
                }
                let r = Json::Object(members);
                assert(r@->Object_0 =~= target);
                r
            },
            other => other,
        }
    }

    /// The member `name`, where this is an object that has it.
    pub fn get(&self, name: &str) -> (r: Option<&Json>)
        ensures
            match r {
                Some(v) => self@.member(name@) == Some(v@),
                None => self@.member(name@) is None,
            },
    {
        match self {
            Json::Object(members) => {
                let ghost m = self@->Object_0;
                let mut i: usize = 0;
                assert(m.skip(0) =~= m);
                while i < members.len()
                    invariant
                        i <= members.len(),
                        m.len() == members.len(),
                        forall|k: int|
                            0 <= k < m.len() ==> (#[trigger] m[k]) == (
                                members@[k].0@,
                                contents(members@[k].1),
                            ),
                        keyed::lookup(m, name@) == keyed::lookup(m.skip(i as int), name@),
                        self@ == JsonView::Object(m),
                    decreases members.len() - i,
                {
                    assert(m.skip(i as int)[0] == m[i as int]);
                    if text::same(&members[i].0, name) {
                        return Some(&members[i].1);
                    }
                    assert(m.skip(i as int).drop_first() =~= m.skip(i + 1));
                    i = i + 1;
                }
                None
            },
            _ => None,
        }
    }

    /// The text this document is.
    pub fn as_text(&self) -> (r: Option<&String>)
        ensures
            match r {
                Some(s) => self@.text() == Some(s@),
                None => self@.text() is None,
            },
    {
        match self {
            Json::Text(s) => Some(s),
            _ => None,
        }
    }

    /// The text of the member `name`.
    pub fn get_text(&self, name: &str) -> (r: Option<&String>)
        ensures
            match r {
                Some(s) => self@.text_member(name@) == Some(s@),
                None => self@.text_member(name@) is None,
            },
    {
        match self.get(name) {
            Some(v) => v.as_text(),
            None => None,
        }
    }

    /// The same document again.
    #[verifier::loop_isolation(false)]
    pub fn duplicate(&self) -> (r: Json)
        ensures
            r@ == self@,
        decreases self,
    {
        match self {
            Json::Null => Json::Null,
            Json::Bool(b) => Json::Bool(*b),
            Json::Int(i) => Json::Int(*i),
            Json::Fraction(s) => Json::Fraction(s.clone()),
            Json::Text(s) => Json::Text(s.clone()),
            Json::List(items) => {
                let mut out: Vec<Json> = Vec::new();
                let mut i: usize = 0;
                while i < items.len()
                    invariant
                        i <= items.len(),
                        out.len() == i,
                        self == Json::List(*items),
                        forall|k: int|
                            0 <= k < i ==> contents(#[trigger] out@[k]) == contents(items@[k]),
                    decreases items.len() - i,
                {
                    let copy = items[i].duplicate();
                    out.push(copy);
                    i = i + 1;
                }
                let r = Json::List(out);
                assert(r@->List_0 =~= self@->List_0);
                r
            },
            Json::Object(members) => {
                let mut out: Vec<(String, Json)> = Vec::new();
                let mut i: usize = 0;
                while i < members.len()
                    invariant
                        i <= members.len(),
                        out.len() == i,
                        self == Json::Object(*members),
                        forall|k: int|
                            0 <= k < i ==> (#[trigger] out@[k]).0@ == members@[k].0@ && contents(
                                out@[k].1,
                            ) == contents(members@[k].1),
                    decreases members.len() - i,
                {
                    let copy = members[i].1.duplicate();
                    out.push((members[i].0.clone(), copy));
                    i = i + 1;
                }
                let r = Json::Object(out);
                assert(r@->Object_0 =~= self@->Object_0);
                r
            },
        }
    }
}

} // verus!

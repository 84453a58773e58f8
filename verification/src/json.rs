//! A plain model of JSON documents and the operations that read them.

use vstd::prelude::*;
use crate::text::same;

verus! {

/// A JSON document held as plain values.
#[derive(Debug, PartialEq, Eq)]
pub enum Json {
    Null,
    Bool(bool),
    /// A non-negative integer.
    Unsigned(u64),
    /// A negative integer.
    Signed(i64),
    /// Any other number, in decimal notation.
    Decimal(String),
    Text(String),
    Array(Vec<Json>),
    /// The members of an object in the order in which they are written. Where
    /// a key is written twice, the later member is the one that counts.
    Object(Vec<(String, Json)>),
}

/// The mathematical value of a [`Json`] document.
pub ghost enum JsonValue {
    Null,
    Bool(bool),
    Unsigned(u64),
    Signed(i64),
    Decimal(Seq<char>),
    Text(Seq<char>),
    Array(Seq<JsonValue>),
    Object(Seq<(Seq<char>, JsonValue)>),
}

/// The value of the last member of `members` whose key is `key`.
pub open spec fn lookup(members: Seq<(Seq<char>, JsonValue)>, key: Seq<char>) -> Option<JsonValue>
    decreases members.len(),
{
    if members.len() == 0 {
        None
    } else if members.last().0 == key {
        Some(members.last().1)
    } else {
        lookup(members.drop_last(), key)
    }
}

impl JsonValue {
    /// The member `key` of an object; `None` for a missing key and for
    /// anything that is not an object.
    pub open spec fn get(self, key: Seq<char>) -> Option<JsonValue> {
        match self {
            JsonValue::Object(members) => lookup(members, key),
            _ => None,
        }
    }

    /// The characters of a string value.
    pub open spec fn as_text(self) -> Option<Seq<char>> {
        match self {
            JsonValue::Text(s) => Some(s),
            _ => None,
        }
    }

    /// The number, where it is a non-negative integer.
    pub open spec fn as_u64(self) -> Option<u64> {
        match self {
            JsonValue::Unsigned(n) => Some(n),
            _ => None,
        }
    }

    /// The items of an array.
    pub open spec fn as_array(self) -> Option<Seq<JsonValue>> {
        match self {
            JsonValue::Array(items) => Some(items),
            _ => None,
        }
    }

    /// The members of an object.
    pub open spec fn as_object(self) -> Option<Seq<(Seq<char>, JsonValue)>> {
        match self {
            JsonValue::Object(members) => Some(members),
            _ => None,
        }
    }
}

/// The values of a sequence of documents.
pub open spec fn values(items: Seq<Json>) -> Seq<JsonValue> {
    Seq::new(items.len(), |i: int| items[i]@)
}

/// The values of a sequence of object members.
pub open spec fn member_values(members: Seq<(String, Json)>) -> Seq<(Seq<char>, JsonValue)> {
    Seq::new(members.len(), |i: int| (members[i].0@, members[i].1@))
}

/// The value of a document.
pub open spec fn value_of(j: Json) -> JsonValue
    decreases j,
{
    match j {
        Json::Null => JsonValue::Null,
        Json::Bool(b) => JsonValue::Bool(b),
        Json::Unsigned(n) => JsonValue::Unsigned(n),
        Json::Signed(n) => JsonValue::Signed(n),
        Json::Decimal(s) => JsonValue::Decimal(s@),
        Json::Text(s) => JsonValue::Text(s@),
        Json::Array(items) => JsonValue::Array(
            Seq::new(
                items@.len(),
                |i: int|
                    if 0 <= i < items@.len() {
                        value_of(items@[i])
                    } else {
                        JsonValue::Null
                    },
            ),
        ),
        Json::Object(members) => JsonValue::Object(
            Seq::new(
                members@.len(),
                |i: int|
                    if 0 <= i < members@.len() {
                        (members@[i].0@, value_of(members@[i].1))
                    } else {
                        (Seq::empty(), JsonValue::Null)
                    },
            ),
        ),
    }
}

impl View for Json {
    type V = JsonValue;

    open spec fn view(&self) -> JsonValue {
        value_of(*self)
    }
}

/// An array's value holds the values of its items.
pub proof fn lemma_array_view(items: Vec<Json>)
    ensures
        Json::Array(items)@ == JsonValue::Array(values(items@)),
{
    let a = Json::Array(items)@;
    assert(a is Array);
    assert(a->Array_0.len() == items@.len());
    assert forall|i: int| 0 <= i < items@.len() implies a->Array_0[i] == items@[i]@ by {}
    assert(a->Array_0 =~= values(items@));
}

/// An object's value holds the keys and values of its members.
pub proof fn lemma_object_view(members: Vec<(String, Json)>)
    ensures
        Json::Object(members)@ == JsonValue::Object(member_values(members@)),
{
    assert(Json::Object(members)@->Object_0 =~= member_values(members@));
}

impl Clone for Json {
    fn clone(&self) -> (out: Json)
        ensures
            out@ == self@,
        decreases self,
    {
        match self {
            Json::Null => Json::Null,
            Json::Bool(b) => Json::Bool(*b),
            Json::Unsigned(n) => Json::Unsigned(*n),
            Json::Signed(n) => Json::Signed(*n),
            Json::Decimal(s) => Json::Decimal(s.clone()),
            Json::Text(s) => Json::Text(s.clone()),
            Json::Array(items) => {
                let mut out: Vec<Json> = Vec::new();
                let mut i: usize = 0;
                while i < items.len()
                    invariant
                        i <= items.len(),
                        out.len() == i,
                        forall|j: int| 0 <= j < i ==> out@[j]@ == items@[j]@,
                        *self == Json::Array(*items),
                    decreases items.len() - i,
                {
                    assert(decreases_to!(*self => self->Array_0));
                    assert(decreases_to!(*items => (*items)[i as int]));
                    out.push(items[i].clone());
                    i += 1;
                }
                proof {
                    lemma_array_view(out);
                    lemma_array_view(*items);
                    assert(values(out@) =~= values(items@));
                }
                Json::Array(out)
            },
            Json::Object(members) => {
                let mut out: Vec<(String, Json)> = Vec::new();
                let mut i: usize = 0;
                while i < members.len()
                    invariant
                        i <= members.len(),
                        out.len() == i,
                        forall|j: int|
                            0 <= j < i ==> out@[j].0@ == members@[j].0@ && out@[j].1@
                                == members@[j].1@,
                        *self == Json::Object(*members),
                    decreases members.len() - i,
                {
                    assert(decreases_to!(*self => self->Object_0));
                    assert(decreases_to!(*members => (*members)[i as int]));
                    assert(decreases_to!((*members)[i as int] => (*members)[i as int].1));
                    out.push((members[i].0.clone(), members[i].1.clone()));
                    i += 1;
                }
                proof {
                    lemma_object_view(out);
                    lemma_object_view(*members);
                    assert(member_values(out@) =~= member_values(members@));
                }
                Json::Object(out)
            },
        }
    }
}

impl Json {
    /// The member `key` of an object.
    pub fn get(&self, key: &str) -> (found: Option<&Json>)
        ensures
            match found {
                Some(j) => self@.get(key@) == Some(j@),
                None => self@.get(key@) is None,
            },
    {
        match self {
            Json::Object(members) => {
                proof {
                    lemma_object_view(*members);
                }
                let ghost all = member_values(members@);
                let mut found: Option<&Json> = None;
                let mut i: usize = 0;
                assert(all.take(0) =~= Seq::empty());
                while i < members.len()
                    invariant
                        i <= members.len(),
                        all == member_values(members@),
                        match found {
                            Some(j) => lookup(all.take(i as int), key@) == Some(j@),
                            None => lookup(all.take(i as int), key@) is None,
                        },
                    decreases members.len() - i,
                {
                    assert(all.take(i + 1).drop_last() =~= all.take(i as int));
                    assert(all.take(i + 1).last() == all[i as int]);
                    if same(members[i].0.as_str(), key) {
                        found = Some(&members[i].1);
                    }
                    i += 1;
                }
                assert(all.take(members.len() as int) =~= all);
                found
            },
            _ => None,
        }
    }

    /// The characters of a string value.
    pub fn as_str(&self) -> (out: Option<&str>)
        ensures
            match out {
                Some(s) => self@.as_text() == Some(s@),
                None => self@.as_text() is None,
            },
    {
        match self {
            Json::Text(s) => Some(s.as_str()),
            _ => None,
        }
    }

    /// The number, where it is a non-negative integer.
    pub fn as_u64(&self) -> (out: Option<u64>)
        ensures
            out == self@.as_u64(),
    {
        match self {
            Json::Unsigned(n) => Some(*n),
            _ => None,
        }
    }

    /// The items of an array.
    pub fn as_array(&self) -> (out: Option<&Vec<Json>>)
        ensures
            match out {
                Some(items) => self@.as_array() == Some(values(items@)),
                None => self@.as_array() is None,
            },
    {
        match self {
            Json::Array(items) => {
                proof {
                    lemma_array_view(*items);
                }
                Some(items)
            },
            _ => None,
        }
    }

    /// The members of an object.
    pub fn as_object(&self) -> (out: Option<&Vec<(String, Json)>>)
        ensures
            match out {
                Some(members) => self@.as_object() == Some(member_values(members@)),
                None => self@.as_object() is None,
            },
    {
        match self {
            Json::Object(members) => {
                proof {
                    lemma_object_view(*members);
                }
                Some(members)
            },
            _ => None,
        }
    }

    /// A string value with the characters of `s`.
    pub fn text(s: &str) -> (out: Json)
        ensures
            out@ == JsonValue::Text(s@),
    {
        Json::Text(s.to_owned())
    }

    /// An array of the given items.
    pub fn array(items: Vec<Json>) -> (out: Json)
        ensures
            out@ == JsonValue::Array(values(items@)),
    {
        proof {
            lemma_array_view(items);
        }
        Json::Array(items)
    }

    /// An object of the given members.
    pub fn object(members: Vec<(String, Json)>) -> (out: Json)
        ensures
            out@ == JsonValue::Object(member_values(members@)),
    {
        proof {
            lemma_object_view(members);
        }
        Json::Object(members)
    }
}

/// One member of an object: `value` under `key`.
pub fn member(key: &str, value: Json) -> (out: (String, Json))
    ensures
        out.0@ == key@,
        out.1 == value,
{
    (key.to_owned(), value)
}

} // verus!

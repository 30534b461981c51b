//! JSON values, as the tools hand them to their caller.

use crate::text::{opt_text, same, strings_view, to_chars};
use vstd::prelude::*;

verus! {

/// A JSON value. The members of an object keep the order in which they were
/// written.
#[derive(Debug, PartialEq, Eq)]
pub enum Json {
    Null,
    Bool(bool),
    Number(i128),
    Text(String),
    Array(Vec<Json>),
    Object(Vec<Member>),
}

/// One member of a JSON object.
#[derive(Debug, PartialEq, Eq)]
pub struct Member {
    pub name: String,
    pub value: Json,
}

/// What a JSON value holds.
pub enum JsonValue {
    Null,
    Bool(bool),
    Number(int),
    Text(Seq<char>),
    Array(Seq<JsonValue>),
    Object(Seq<(Seq<char>, JsonValue)>),
}

/// The value of a member.
pub open spec fn member_value(m: Member) -> JsonValue
    decreases m,
{
    m.value.view()
}

impl View for Json {
    type V = JsonValue;

    open spec fn view(&self) -> JsonValue
        decreases self,
    {
        match self {
            Json::Null => JsonValue::Null,
            Json::Bool(b) => JsonValue::Bool(*b),
            Json::Number(n) => JsonValue::Number(*n as int),
            Json::Text(s) => JsonValue::Text(s@),
            Json::Array(items) => JsonValue::Array(
                Seq::new(
                    items.len() as nat,
                    |i: int|
                        if 0 <= i < items.len() {
                            items[i].view()
                        } else {
                            JsonValue::Null
                        },
                ),
            ),
            Json::Object(members) => JsonValue::Object(
                Seq::new(
                    members.len() as nat,
                    |i: int|
                        if 0 <= i < members.len() {
                            (members[i].name@, member_value(members[i]))
                        } else {
                            (Seq::empty(), JsonValue::Null)
                        },
                ),
            ),
        }
    }
}

/// The names and values of the members `ms`.
pub open spec fn members_view(ms: Seq<Member>) -> Seq<(Seq<char>, JsonValue)> {
    ms.map_values(|m: Member| (m.name@, member_value(m)))
}

/// The values of the items `items`.
pub open spec fn items_view(items: Seq<Json>) -> Seq<JsonValue> {
    items.map_values(|j: Json| j@)
}

impl JsonValue {
    /// The array of the texts `items`.
    pub open spec fn texts(items: Seq<Seq<char>>) -> JsonValue {
        JsonValue::Array(items.map_values(|s: Seq<char>| JsonValue::Text(s)))
    }

    /// The text `s`, or null where there is none.
    pub open spec fn optional_text(s: Option<Seq<char>>) -> JsonValue {
        match s {
            Some(t) => JsonValue::Text(t),
            None => JsonValue::Null,
        }
    }

    /// The position of the first member called `name` among `members`, or
    /// their number where there is none.
    pub open spec fn position(members: Seq<(Seq<char>, JsonValue)>, name: Seq<char>) -> int
        decreases members.len(),
    {
        if members.len() == 0 || members[0].0 == name {
            0
        } else {
            1 + Self::position(members.drop_first(), name)
        }
    }

    /// The value of the first member called `name`, where this is an object
    /// that has one.
    pub open spec fn member(self, name: Seq<char>) -> Option<JsonValue> {
        match self {
            JsonValue::Object(members) => {
                let at = Self::position(members, name);
                if 0 <= at < members.len() {
                    Some(members[at].1)
                } else {
                    None
                }
            },
            _ => None,
        }
    }
}

impl Json {
    /// The text `s`.
    pub fn text(s: &str) -> (j: Json)
        ensures
            j@ == JsonValue::Text(s@),
    {
        Json::Text(s.to_owned())
    }

    /// The number `n`.
    pub fn number(n: i128) -> (j: Json)
        ensures
            j@ == JsonValue::Number(n as int),
    {
        Json::Number(n)
    }

    /// The truth value `b`.
    pub fn boolean(b: bool) -> (j: Json)
        ensures
            j@ == JsonValue::Bool(b),
    {
        Json::Bool(b)
    }

    /// The text `s`, or null where there is none.
    pub fn optional_text(s: &Option<String>) -> (j: Json)
        ensures
            j@ == JsonValue::optional_text(opt_text(*s)),
    {
        match s {
            Some(t) => Json::Text(t.clone()),
            None => Json::Null,
        }
    }

    /// The array of the items `items`.
    pub fn array(items: Vec<Json>) -> (j: Json)
        ensures
            j@ == JsonValue::Array(items_view(items@)),
    {
        let j = Json::Array(items);
        assert(j@->Array_0 =~= items_view(items@));
        j
    }

    /// The object with the members `members`, in their order.
    pub fn object(members: Vec<Member>) -> (j: Json)
        ensures
            j@ == JsonValue::Object(members_view(members@)),
    {
        let j = Json::Object(members);
        assert(j@->Object_0 =~= members_view(members@));
        j
    }

    /// The array of the strings `items`.
    pub fn texts(items: &Vec<String>) -> (j: Json)
        ensures
            j@ == JsonValue::texts(strings_view(items@)),
    {
        let mut out: Vec<Json> = Vec::new();
        let mut i: usize = 0;
        while i < items.len()
            invariant
                i <= items.len(),
                out.len() == i,
                forall|k: int| 0 <= k < i ==> (#[trigger] out@[k])@ == JsonValue::Text(items@[k]@),
            decreases items.len() - i,
        {
            out.push(Json::Text(items[i].clone()));
            i += 1;
        }
        let j = Json::Array(out);
        assert(j@->Array_0 =~= strings_view(items@).map_values(|s: Seq<char>| JsonValue::Text(s)));
        j
    }

    /// The value of the first member called `name`, where this is an object
    /// that has one.
    pub fn get(&self, name: &str) -> (r: Option<&Json>)
        ensures
            match self@.member(name@) {
                Some(v) => r matches Some(j) && j@ == v,
                None => r is None,
            },
    {
        match self {
            Json::Object(members) => {
                let wanted = to_chars(name);
                let ghost all = members_view(members@);
                assert(self@->Object_0 =~= all);
                assert(all.skip(0) =~= all);
                let mut i: usize = 0;
                while i < members.len()
                    invariant
                        i <= members.len(),
                        wanted@ == name@,
                        all == members_view(members@),
                        self@ == JsonValue::Object(all),
                        JsonValue::position(all, name@) == i + JsonValue::position(
                            all.skip(i as int),
                            name@,
                        ),
                    decreases members.len() - i,
                {
                    let here = to_chars(members[i].name.as_str());
                    assert(all.skip(i as int)[0] == all[i as int]);
                    if same(&here, &wanted) {
                        assert(all[i as int].1 == members@[i as int].value@);
                        assert(all[i as int].0 == name@);
                        assert(JsonValue::position(all.skip(i as int), name@) == 0);
                        return Some(&members[i].value);
                    }
                    assert(all[i as int].0 != name@);
                    assert(all.skip(i as int).drop_first() =~= all.skip(i + 1));
                    i += 1;
                }
                None
            },
            _ => None,
        }
    }

    /// The text that this value is, where it is one.
    pub fn as_str(&self) -> (r: Option<&str>)
        ensures
            match self@ {
                JsonValue::Text(t) => r matches Some(s) && s@ == t,
                _ => r is None,
            },
    {
        match self {
            Json::Text(s) => Some(s.as_str()),
            _ => None,
        }
    }
}

/// A member called `name` with the value `value`.
pub fn member(name: &str, value: Json) -> (m: Member)
    ensures
        m.name@ == name@,
        m.value == value,
        member_value(m) == value@,
{
    Member { name: name.to_owned(), value }
}

} // verus!

//! JSON documents as plain values, and what this library takes on trust
//! from the `serde_json` crate: the reading of a JSON text.

use vstd::prelude::*;

verus! {

/// A JSON value. Of a number it keeps what the library reads: the value,
/// where the number is a whole number from 0 to 2^64 - 1.
#[derive(Debug)]
pub enum Json {
    Null,
    Bool(bool),
    Number(Option<u64>),
    Text(String),
    Array(Vec<Json>),
    /// The members of an object, each with its key.
    Object(Vec<(String, Json)>),
}

/// A [`Json`] as plain sequences.
pub ghost enum JsonView {
    Null,
    Bool(bool),
    Number(Option<u64>),
    Text(Seq<char>),
    Array(Seq<JsonView>),
    Object(Seq<(Seq<char>, JsonView)>),
}

/// The plain form of `value`.
pub open spec fn json_view(value: Json) -> JsonView
    decreases value,
{
    match value {
        Json::Null => JsonView::Null,
        Json::Bool(b) => JsonView::Bool(b),
        Json::Number(n) => JsonView::Number(n),
        Json::Text(text) => JsonView::Text(text@),
        Json::Array(items) => JsonView::Array(
            Seq::new(
                items@.len(),
                |i: int|
                    if 0 <= i < items@.len() {
                        json_view(items@[i])
                    } else {
                        JsonView::Null
                    },
            ),
        ),
        Json::Object(members) => JsonView::Object(
            Seq::new(
                members@.len(),
                |i: int|
                    if 0 <= i < members@.len() {
                        (members@[i].0@, json_view(members@[i].1))
                    } else {
                        (Seq::empty(), JsonView::Null)
                    },
            ),
        ),
    }
}

impl View for Json {
    type V = JsonView;

    open spec fn view(&self) -> JsonView {
        json_view(*self)
    }
}

/// `Value` of `serde_json`: a JSON value as that crate holds it. The library
/// only hands it to [`plain_json`].
#[verifier::external_type_specification]
#[verifier::external_body]
pub struct ExValue(serde_json::Value);

/// The JSON value that the text `body` holds, where it is a JSON text.
pub uninterp spec fn json_of(body: Seq<u8>) -> Option<JsonView>;

/// Turns a `Value` of `serde_json` into a [`Json`], variant by variant; a
/// number is asked for its value with `Number::as_u64`. Nothing is claimed
/// of the result here: [`parse_json`], which calls this, names it.
#[verifier::external_body]
pub(crate) fn plain_json(value: serde_json::Value) -> Json {
    match value {
        serde_json::Value::Null => Json::Null,
        serde_json::Value::Bool(b) => Json::Bool(b),
        serde_json::Value::Number(n) => Json::Number(n.as_u64()),
        serde_json::Value::String(text) => Json::Text(text),
        serde_json::Value::Array(items) => Json::Array(items.into_iter().map(plain_json).collect()),
        serde_json::Value::Object(members) => Json::Object(
            members.into_iter().map(|(key, member)| (key, plain_json(member))).collect(),
        ),
    }
}

/// `serde_json::from_slice`: the JSON value that `body` holds, as plain
/// values, or nothing where `body` is no JSON text. The contract gives the
/// result its name and claims nothing more of it.
#[verifier::external_body]
pub(crate) fn parse_json(body: &[u8]) -> (r: Option<Json>)
    ensures
        match r {
            Some(document) => json_of(body@) == Some(document@),
            None => json_of(body@) is None,
        },
{
    serde_json::from_slice::<serde_json::Value>(body).ok().map(plain_json)
}

/// The first of `members` with the key `key`.
pub open spec fn first_with_key(members: Seq<(Seq<char>, JsonView)>, key: Seq<char>) -> Option<
    JsonView,
>
    decreases members.len(),
{
    if members.len() == 0 {
        None
    } else if members[0].0 == key {
        Some(members[0].1)
    } else {
        first_with_key(members.drop_first(), key)
    }
}

/// The member `key` of `value`, where `value` is an object that has one.
pub open spec fn member_of(value: JsonView, key: Seq<char>) -> Option<JsonView> {
    match value {
        JsonView::Object(members) => first_with_key(members, key),
        _ => None,
    }
}

/// The number `value`, where it is a whole number from 0 to 2^64 - 1.
pub open spec fn whole_of(value: JsonView) -> Option<u64> {
    match value {
        JsonView::Number(n) => n,
        _ => None,
    }
}

proof fn lemma_first_with_key_skips(
    members: Seq<(Seq<char>, JsonView)>,
    key: Seq<char>,
    i: int,
)
    requires
        0 <= i <= members.len(),
        forall|j: int| 0 <= j < i ==> members[j].0 != key,
    ensures
        first_with_key(members, key) == first_with_key(members.skip(i), key),
    decreases i,
{
    if i == 0 {
        assert(members.skip(0) == members);
    } else {
        let rest = members.drop_first();
        assert forall|j: int| 0 <= j < i - 1 implies rest[j].0 != key by {
            assert(rest[j] == members[j + 1]);
        }
        lemma_first_with_key_skips(rest, key, i - 1);
        assert(rest.skip(i - 1) == members.skip(i));
    }
}

impl Json {
    /// The member `key` of this value, where it is an object that has one.
    pub fn member(&self, key: &str) -> (r: Option<&Json>)
        ensures
            match r {
                Some(found) => member_of(self@, key@) == Some(found@),
                None => member_of(self@, key@) is None,
            },
    {
        match self {
            Json::Object(members) => {
                let wanted = String::from_str(key);
                let ghost shown = Seq::new(
                    members@.len(),
                    |i: int|
                        if 0 <= i < members@.len() {
                            (members@[i].0@, members@[i].1@)
                        } else {
                            (Seq::empty(), JsonView::Null)
                        },
                );
                assert(*self == Json::Object(*members));
                assert(json_view(*self) is Object);
                assert(json_view(*self)->Object_0 =~= shown);
                let mut i: usize = 0;
                while i < members.len()
                    invariant
                        i <= members@.len(),
                        wanted@ == key@,
                        self@ == JsonView::Object(shown),
                        shown.len() == members@.len(),
                        forall|j: int|
                            0 <= j < members@.len() ==> shown[j] == (
                                members@[j].0@,
                                members@[j].1@,
                            ),
                        forall|j: int| 0 <= j < i ==> shown[j].0 != key@,
                    decreases members@.len() - i,
                {
                    if members[i].0 == wanted {
                        proof {
                            lemma_first_with_key_skips(shown, key@, i as int);
                            assert(shown.skip(i as int)[0] == shown[i as int]);
                        }
                        return Some(&members[i].1);
                    }
                    i = i + 1;
                }
                proof {
                    lemma_first_with_key_skips(shown, key@, shown.len() as int);
                    assert(shown.skip(shown.len() as int).len() == 0);
                }
                None
            },
            _ => None,
        }
    }

    /// This value as a whole number from 0 to 2^64 - 1, where it is one.
    pub fn whole(&self) -> (r: Option<u64>)
        ensures
            r == whole_of(self@),
    {
        match self {
            Json::Number(n) => *n,
            _ => None,
        }
    }
}

} // verus!

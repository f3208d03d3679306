//! JSON documents as plain data, and the accessors the decoders read them with.

use crate::text::{chars_of, decimal_within, parse_decimal, same_text};
use vstd::prelude::*;

verus! {

/// A JSON document held as plain data.
///
/// A number keeps the decimal text it is written with, so that no precision is
/// lost and integers can be read back exactly. An object keeps its members as
/// a list of name and value.
#[derive(Debug, PartialEq, Eq)]
pub enum Json {
    Null,
    Bool(bool),
    Number(String),
    Text(String),
    Array(Vec<Json>),
    Object(Vec<(String, Json)>),
}

/// The mathematical value of a [`Json`] document.
pub enum JsonValue {
    Null,
    Bool(bool),
    Number(Seq<char>),
    Text(Seq<char>),
    Array(Seq<JsonValue>),
    Object(Seq<(Seq<char>, JsonValue)>),
}

/// The mathematical value of a document.
pub open spec fn json_value(j: Json) -> JsonValue
    decreases j,
{
    match j {
        Json::Null => JsonValue::Null,
        Json::Bool(b) => JsonValue::Bool(b),
        Json::Number(n) => JsonValue::Number(n@),
        Json::Text(t) => JsonValue::Text(t@),
        Json::Array(items) => JsonValue::Array(
            Seq::new(
                items@.len(),
                |i: int|
                    if 0 <= i < items@.len() {
                        json_value(items@[i])
                    } else {
                        JsonValue::Null
                    },
            ),
        ),
        Json::Object(members) => JsonValue::Object(
            Seq::new(
                members@.len(),
                |i: int|
                    if 0 <= i < members@.len() {
                        (members@[i].0@, json_value(members@[i].1))
                    } else {
                        (Seq::empty(), JsonValue::Null)
                    },
            ),
        ),
    }
}

impl View for Json {
    type V = JsonValue;

    open spec fn view(&self) -> JsonValue {
        json_value(*self)
    }
}

impl DeepView for Json {
    type V = JsonValue;

    open spec fn deep_view(&self) -> JsonValue {
        self@
    }
}

/// The value of the first member named `key` among `members[start..]`.
pub open spec fn member_from(
    members: Seq<(Seq<char>, JsonValue)>,
    key: Seq<char>,
    start: int,
) -> Option<JsonValue>
    decreases members.len() - start,
{
    if start < 0 || start >= members.len() {
        None
    } else if members[start].0 == key {
        Some(members[start].1)
    } else {
        member_from(members, key, start + 1)
    }
}

impl JsonValue {
    /// The value of the member named `key`, when this is an object that has one.
    pub open spec fn member(self, key: Seq<char>) -> Option<JsonValue> {
        match self {
            JsonValue::Object(members) => member_from(members, key, 0),
            _ => None,
        }
    }

    /// The member named `key`, with an absent member read as `null`.
    pub open spec fn member_or_null(self, key: Seq<char>) -> JsonValue {
        match self.member(key) {
            Some(v) => v,
            None => JsonValue::Null,
        }
    }

    /// The characters of a JSON string.
    pub open spec fn text(self) -> Option<Seq<char>> {
        match self {
            JsonValue::Text(t) => Some(t),
            _ => None,
        }
    }

    /// The elements of a JSON array.
    pub open spec fn items(self) -> Option<Seq<JsonValue>> {
        match self {
            JsonValue::Array(items) => Some(items),
            _ => None,
        }
    }

    /// The value of a JSON number written as an unsigned integer that fits in
    /// 32 bits.
    pub open spec fn small_unsigned(self) -> Option<u32> {
        match self {
            JsonValue::Number(n) => match decimal_within(n, u32::MAX as nat) {
                Some(v) => Some(v as u32),
                None => None,
            },
            _ => None,
        }
    }

    /// The value of a JSON number written as an unsigned integer that fits in
    /// 64 bits.
    pub open spec fn unsigned(self) -> Option<u64> {
        match self {
            JsonValue::Number(n) => match decimal_within(n, u64::MAX as nat) {
                Some(v) => Some(v as u64),
                None => None,
            },
            _ => None,
        }
    }
}

impl Json {
    /// Whether this is the JSON `null`.
    pub fn is_null(&self) -> (yes: bool)
        ensures
            yes == (self@ is Null),
    {
        match self {
            Json::Null => true,
            _ => false,
        }
    }

    /// Whether this is a JSON object.
    pub fn is_object(&self) -> (yes: bool)
        ensures
            yes == (self@ is Object),
    {
        match self {
            Json::Object(_) => true,
            _ => false,
        }
    }

    /// The member named `key` of an object: the first one, should the list
    /// hold several of that name.
    pub fn member(&self, key: &str) -> (found: Option<&Json>)
        ensures
            match found {
                Some(j) => self@.member(key@) == Some(j@),
                None => self@.member(key@) is None,
            },
    {
        match self {
            Json::Object(members) => {
                let mut i: usize = 0;
                while i < members.len()
                    invariant
                        0 <= i <= members.len(),
                        self@ is Object,
                        self@->Object_0.len() == members@.len(),
                        forall|k: int|
                            0 <= k < members@.len() ==> #[trigger] self@->Object_0[k] == (
                                members@[k].0@,
                                members@[k].1@,
                            ),
                        self@.member(key@) == member_from(self@->Object_0, key@, i as int),
                    decreases members.len() - i,
                {
                    if same_text(members[i].0.as_str(), key) {
                        return Some(&members[i].1);
                    }
                    i += 1;
                }
                None
            },
            _ => None,
        }
    }

    /// The characters of a JSON string.
    pub fn as_text(&self) -> (found: Option<&str>)
        ensures
            match found {
                Some(t) => self@.text() == Some(t@),
                None => self@.text() is None,
            },
    {
        match self {
            Json::Text(t) => Some(t.as_str()),
            _ => None,
        }
    }

    /// The elements of a JSON array.
    pub fn as_items(&self) -> (found: Option<&Vec<Json>>)
        ensures
            match found {
                Some(items) => self@.items() == Some(items.deep_view()),
                None => self@.items() is None,
            },
    {
        match self {
            Json::Array(items) => {
                assert(self@->Array_0 =~= items.deep_view());
                Some(items)
            },
            _ => None,
        }
    }

    /// The value of a number written as an unsigned integer of at most 32 bits.
    pub fn as_u32(&self) -> (found: Option<u32>)
        ensures
            found == self@.small_unsigned(),
    {
        match self {
            Json::Number(n) => {
                let digits = chars_of(n.as_str());
                match parse_decimal(digits.as_slice(), 4294967295) {
                    Some(v) => Some(v as u32),
                    None => None,
                }
            },
            _ => None,
        }
    }

    /// The value of a number written as an unsigned integer of at most 64 bits.
    pub fn as_u64(&self) -> (found: Option<u64>)
        ensures
            found == self@.unsigned(),
    {
        match self {
            Json::Number(n) => {
                let digits = chars_of(n.as_str());
                parse_decimal(digits.as_slice(), 18446744073709551615)
            },
            _ => None,
        }
    }

    /// A copy of this document.
    pub fn duplicate(&self) -> (out: Json)
        ensures
            out@ == self@,
        decreases self,
    {
        match self {
            Json::Null => Json::Null,
            Json::Bool(b) => Json::Bool(*b),
            Json::Number(n) => Json::Number(n.clone()),
            Json::Text(t) => Json::Text(t.clone()),
            Json::Array(items) => {
                let mut copies: Vec<Json> = Vec::new();
                let mut i: usize = 0;
                while i < items.len()
                    invariant
                        0 <= i <= items.len(),
                        copies.len() == i,
                        *self == Json::Array(*items),
                        forall|k: int| 0 <= k < i ==> (#[trigger] copies@[k])@ == items@[k]@,
                    decreases items.len() - i,
                {
                    proof {
                        vstd::std_specs::vec::axiom_vec_index_decreases(*items, i as int);
                        assert(self is Array);
                        assert(self->Array_0 == *items);
                        assert(decreases_to!(*self => self->Array_0));
                    }
                    copies.push(items[i].duplicate());
                    i += 1;
                }
                let out = Json::Array(copies);
                assert(out@->Array_0 =~= self@->Array_0);
                out
            },
            Json::Object(members) => {
                let mut copies: Vec<(String, Json)> = Vec::new();
                let mut i: usize = 0;
                while i < members.len()
                    invariant
                        0 <= i <= members.len(),
                        copies.len() == i,
                        *self == Json::Object(*members),
                        forall|k: int|
                            0 <= k < i ==> (#[trigger] copies@[k]).0@ == members@[k].0@
                                && copies@[k].1@ == members@[k].1@,
                    decreases members.len() - i,
                {
                    proof {
                        vstd::std_specs::vec::axiom_vec_index_decreases(*members, i as int);
                        assert(self->Object_0 == *members);
                        assert(decreases_to!(*self => self->Object_0));
                        assert(decreases_to!(members[i as int] => members[i as int].1));
                    }
                    copies.push((members[i].0.clone(), members[i].1.duplicate()));
                    i += 1;
                }
                let out = Json::Object(copies);
                assert(out@->Object_0 =~= self@->Object_0);
                out
            },
        }
    }
}

impl Clone for Json {
    fn clone(&self) -> (out: Json)
        ensures
            out@ == self@,
    {
        self.duplicate()
    }
}

/// What reading `text` as one JSON document gives: the document's value, or
/// the reader's description of the first fault in the text.
pub uninterp spec fn parsed_json(text: Seq<char>) -> Result<JsonValue, Seq<char>>;

/// What a `serde_json::Value` holds: a number as the text that it displays,
/// an object as its members in the order in which its map hands them out.
pub uninterp spec fn value_of(value: serde_json::Value) -> JsonValue;

/// Declares `serde_json::Value` as a type whose inside is not looked into.
#[verifier::external_type_specification]
#[verifier::external_body]
pub struct ExSerdeValue(serde_json::Value);

/// Calls `serde_json::from_str` for a `serde_json::Value`. The contract claims
/// only that the outcome is a function of the text: the same text always gives
/// a value that holds the same document, or the same error message
/// (`serde_json::Error` as it displays itself).
#[verifier::external_body]
fn parse_value(text: &str) -> (out: Result<serde_json::Value, String>)
    ensures
        match out {
            Ok(value) => parsed_json(text@) == Ok::<JsonValue, Seq<char>>(value_of(value)),
            Err(e) => parsed_json(text@) == Err::<JsonValue, Seq<char>>(e@),
        },
{
    serde_json::from_str::<serde_json::Value>(text).map_err(|error| error.to_string())
}

/// Hands out what a `serde_json::Value` holds as a [`Json`], variant for
/// variant: a number through the `Display` of `serde_json::Number`, the
/// elements of an array and the members of an object through their iterators.
#[verifier::external_body]
fn json_from_value(value: serde_json::Value) -> (out: Json)
    ensures
        out@ == value_of(value),
{
    match value {
        serde_json::Value::Null => Json::Null,
        serde_json::Value::Bool(b) => Json::Bool(b),
        serde_json::Value::Number(n) => Json::Number(n.to_string()),
        serde_json::Value::String(t) => Json::Text(t),
        serde_json::Value::Array(items) => Json::Array(
            items.into_iter().map(json_from_value).collect(),
        ),
        serde_json::Value::Object(members) => Json::Object(
            members.into_iter().map(|(name, v)| (name, json_from_value(v))).collect(),
        ),
    }
}

impl Json {
    /// Reads `text` as one JSON document.
    pub fn parse(text: &str) -> (out: Result<Json, String>)
        ensures
            match out {
                Ok(j) => parsed_json(text@) == Ok::<JsonValue, Seq<char>>(j@),
                Err(e) => parsed_json(text@) == Err::<JsonValue, Seq<char>>(e@),
            },
    {
        match parse_value(text) {
            Ok(value) => Ok(json_from_value(value)),
            Err(e) => Err(e),
        }
    }
}

} // verus!

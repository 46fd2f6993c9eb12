//! JSON documents as the library holds them: a tree of plain values, read
//! through a handful of accessors. Parsing text into a document is left to
//! `serde_json`.

use crate::text::str_eq;
use serde_json::Value;
use vstd::prelude::*;

verus! {

/// A JSON number, in one of the three shapes a parsed document can hold.
#[derive(Clone, Copy, Debug, PartialEq, Eq, Structural)]
pub enum JsonNumber {
    /// An integer that is zero or more.
    Unsigned(u64),
    /// An integer below zero.
    Negative(i64),
    /// Any other number, as the bit pattern of its double-precision value.
    Real(u64),
}

/// A JSON document.
#[derive(Debug)]
pub enum JsonValue {
    Null,
    Bool(bool),
    Number(JsonNumber),
    Text(String),
    Array(Vec<JsonValue>),
    /// The members of an object, in the order in which the document holds them.
    Object(Vec<(String, JsonValue)>),
}

/// The mathematical value of a [`JsonValue`].
pub enum JsonModel {
    Null,
    Bool(bool),
    Number(JsonNumber),
    Text(Seq<char>),
    Array(Seq<JsonModel>),
    Object(Seq<(Seq<char>, JsonModel)>),
}

/// The value of the first member named `key` among `members`.
pub open spec fn lookup(members: Seq<(Seq<char>, JsonModel)>, key: Seq<char>) -> Option<JsonModel>
    decreases members.len(),
{
    if members.len() == 0 {
        None
    } else if members[0].0 == key {
        Some(members[0].1)
    } else {
        lookup(members.drop_first(), key)
    }
}

impl JsonModel {
    /// The member `key` of an object; `None` for a missing member and for
    /// anything that is not an object.
    pub open spec fn field(self, key: Seq<char>) -> Option<JsonModel> {
        match self {
            JsonModel::Object(members) => lookup(members, key),
            _ => None,
        }
    }

    /// The characters of a string.
    pub open spec fn text(self) -> Option<Seq<char>> {
        match self {
            JsonModel::Text(s) => Some(s),
            _ => None,
        }
    }

    /// The elements of an array.
    pub open spec fn items(self) -> Option<Seq<JsonModel>> {
        match self {
            JsonModel::Array(items) => Some(items),
            _ => None,
        }
    }

    /// The value of an integer that is zero or more.
    pub open spec fn unsigned(self) -> Option<u64> {
        match self {
            JsonModel::Number(JsonNumber::Unsigned(n)) => Some(n),
            _ => None,
        }
    }

    /// The value of a boolean.
    pub open spec fn boolean(self) -> Option<bool> {
        match self {
            JsonModel::Bool(b) => Some(b),
            _ => None,
        }
    }

    /// The string held by the member `key`.
    pub open spec fn text_at(self, key: Seq<char>) -> Option<Seq<char>> {
        match self.field(key) {
            Some(v) => v.text(),
            None => None,
        }
    }

    /// The non-negative integer held by the member `key`.
    pub open spec fn unsigned_at(self, key: Seq<char>) -> Option<u64> {
        match self.field(key) {
            Some(v) => v.unsigned(),
            None => None,
        }
    }

    /// The boolean held by the member `key`.
    pub open spec fn boolean_at(self, key: Seq<char>) -> Option<bool> {
        match self.field(key) {
            Some(v) => v.boolean(),
            None => None,
        }
    }

    /// The member `first`, or the member `second` where `first` is missing.
    pub open spec fn either(self, first: Seq<char>, second: Seq<char>) -> Option<JsonModel> {
        match self.field(first) {
            Some(v) => Some(v),
            None => self.field(second),
        }
    }

    /// The array held by the member `key`.
    pub open spec fn items_at(self, key: Seq<char>) -> Option<Seq<JsonModel>> {
        match self.field(key) {
            Some(v) => v.items(),
            None => None,
        }
    }
}

impl JsonValue {
    /// The mathematical value of the document.
    pub open spec fn model(&self) -> JsonModel
        decreases self,
    {
        match self {
            JsonValue::Null => JsonModel::Null,
            JsonValue::Bool(b) => JsonModel::Bool(*b),
            JsonValue::Number(n) => JsonModel::Number(*n),
            JsonValue::Text(s) => JsonModel::Text(s@),
            JsonValue::Array(items) => JsonModel::Array(
                Seq::new(
                    items@.len(),
                    |i: int|
                        if 0 <= i < items@.len() {
                            items@[i].model()
                        } else {
                            JsonModel::Null
                        },
                ),
            ),
            JsonValue::Object(members) => JsonModel::Object(
                Seq::new(
                    members@.len(),
                    |i: int|
                        if 0 <= i < members@.len() {
                            (members@[i].0@, members@[i].1.model())
                        } else {
                            (Seq::empty(), JsonModel::Null)
                        },
                ),
            ),
        }
    }
}

impl View for JsonValue {
    type V = JsonModel;

    open spec fn view(&self) -> JsonModel {
        self.model()
    }
}

impl DeepView for JsonValue {
    type V = JsonModel;

    open spec fn deep_view(&self) -> JsonModel {
        self@
    }
}

/// The view of an array is the array of its elements' views.
pub proof fn lemma_array_view(items: Vec<JsonValue>)
    ensures
        JsonValue::Array(items)@ == JsonModel::Array(items.deep_view()),
{
    assert(JsonValue::Array(items)@->Array_0 =~= items.deep_view());
}

/// The view of an object is the sequence of its members' views.
pub proof fn lemma_object_view(members: Vec<(String, JsonValue)>)
    ensures
        JsonValue::Object(members)@ == JsonModel::Object(members.deep_view()),
{
    assert(JsonValue::Object(members)@->Object_0 =~= members.deep_view());
}

impl Clone for JsonValue {
    fn clone(&self) -> (out: Self)
        ensures
            out@ == self@,
        decreases self,
    {
        match self {
            JsonValue::Null => JsonValue::Null,
            JsonValue::Bool(b) => JsonValue::Bool(*b),
            JsonValue::Number(n) => JsonValue::Number(*n),
            JsonValue::Text(s) => JsonValue::Text(s.clone()),
            JsonValue::Array(items) => {
                let mut copy: Vec<JsonValue> = Vec::new();
                let mut i: usize = 0;
                assert(decreases_to!(*self => items@));
                while i < items.len()
                    invariant
                        i <= items@.len(),
                        decreases_to!(*self => items@),
                        copy@.len() == i,
                        *self == JsonValue::Array(*items),
                        forall|j: int| 0 <= j < i ==> (#[trigger] copy@[j])@ == items@[j]@,
                    decreases items@.len() - i,
                {
                    proof {
                        assert(decreases_to!(items@ => items@[i as int]));
                    }
                    let item = items[i].clone();
                    copy.push(item);
                    i = i + 1;
                }
                proof {
                    lemma_array_view(copy);
                    lemma_array_view(*items);
                    assert(copy.deep_view() =~= items.deep_view());
                }
                JsonValue::Array(copy)
            },
            JsonValue::Object(members) => {
                let mut copy: Vec<(String, JsonValue)> = Vec::new();
                let mut i: usize = 0;
                assert(decreases_to!(*self => members@));
                while i < members.len()
                    invariant
                        i <= members@.len(),
                        decreases_to!(*self => members@),
                        copy@.len() == i,
                        *self == JsonValue::Object(*members),
                        forall|j: int|
                            0 <= j < i ==> (#[trigger] copy@[j]).0@ == members@[j].0@ && copy@[j].1@
                                == members@[j].1@,
                    decreases members@.len() - i,
                {
                    let name = members[i].0.clone();
                    proof {
                        assert(decreases_to!(members@ => members@[i as int]));
                        assert(decreases_to!(members@[i as int] => members@[i as int].1));
                    }
                    let value = members[i].1.clone();
                    copy.push((name, value));
                    i = i + 1;
                }
                proof {
                    lemma_object_view(copy);
                    lemma_object_view(*members);
                    assert(copy.deep_view() =~= members.deep_view());
                }
                JsonValue::Object(copy)
            },
        }
    }
}

impl JsonValue {
    /// The member `key` of an object.
    pub fn get(&self, key: &str) -> (out: Option<&JsonValue>)
        ensures
            out.deep_view() == self@.field(key@),
    {
        match self {
            JsonValue::Object(members) => {
                proof {
                    lemma_object_view(*members);
                }
                let mut i: usize = 0;
                proof {
                    assert(members.deep_view().skip(0) =~= members.deep_view());
                }
                while i < members.len()
                    invariant
                        i <= members@.len(),
                        self@.field(key@) == lookup(members.deep_view(), key@),
                        lookup(members.deep_view(), key@) == lookup(
                            members.deep_view().skip(i as int),
                            key@,
                        ),
                    decreases members@.len() - i,
                {
                    proof {
                        assert(members.deep_view().skip(i as int).drop_first()
                            =~= members.deep_view().skip(i + 1));
                        assert(members.deep_view().skip(i as int)[0] == (
                            members@[i as int].0@,
                            members@[i as int].1@,
                        ));
                    }
                    if str_eq(members[i].0.as_str(), key) {
                        let found = &members[i].1;
                        assert(Some(found).deep_view() == Some(found@));
                        return Some(found);
                    }
                    i = i + 1;
                }
                None
            },
            _ => None,
        }
    }

    /// The characters of a string.
    pub fn as_str(&self) -> (out: Option<&str>)
        ensures
            out.deep_view() == self@.text(),
    {
        match self {
            JsonValue::Text(s) => Some(s.as_str()),
            _ => None,
        }
    }

    /// The elements of an array.
    pub fn as_array(&self) -> (out: Option<&Vec<JsonValue>>)
        ensures
            out.deep_view() == self@.items(),
    {
        match self {
            JsonValue::Array(items) => {
                proof {
                    lemma_array_view(*items);
                }
                Some(items)
            },
            _ => None,
        }
    }

    /// The value of an integer that is zero or more.
    pub fn as_u64(&self) -> (out: Option<u64>)
        ensures
            out == self@.unsigned(),
    {
        match self {
            JsonValue::Number(JsonNumber::Unsigned(n)) => Some(*n),
            _ => None,
        }
    }

    /// The value of a boolean.
    pub fn as_bool(&self) -> (out: Option<bool>)
        ensures
            out == self@.boolean(),
    {
        match self {
            JsonValue::Bool(b) => Some(*b),
            _ => None,
        }
    }

    /// The member `first`, or the member `second` where `first` is missing.
    pub fn either(&self, first: &str, second: &str) -> (out: Option<&JsonValue>)
        ensures
            out.deep_view() == self@.either(first@, second@),
    {
        match self.get(first) {
            Some(v) => Some(v),
            None => self.get(second),
        }
    }

    /// The string held by the member `key`.
    pub fn str_at(&self, key: &str) -> (out: Option<&str>)
        ensures
            out.deep_view() == self@.text_at(key@),
    {
        match self.get(key) {
            Some(v) => v.as_str(),
            None => None,
        }
    }

    /// The array held by the member `key`.
    pub fn items_at(&self, key: &str) -> (out: Option<&Vec<JsonValue>>)
        ensures
            out.deep_view() == self@.items_at(key@),
    {
        match self.get(key) {
            Some(v) => v.as_array(),
            None => None,
        }
    }

    /// The string held by the member `key`, copied.
    pub fn text_at(&self, key: &str) -> (out: Option<String>)
        ensures
            out.deep_view() == self@.text_at(key@),
    {
        match self.get(key) {
            Some(v) => match v.as_str() {
                Some(s) => Some(s.to_owned()),
                None => None,
            },
            None => None,
        }
    }

    /// Whether the member `key` holds the string `text`.
    pub fn has_text(&self, key: &str, text: &str) -> (yes: bool)
        ensures
            yes == (self@.text_at(key@) == Some(text@)),
    {
        match self.str_at(key) {
            Some(held) => str_eq(held, text),
            None => false,
        }
    }

    /// The non-negative integer held by the member `key`.
    pub fn unsigned_at(&self, key: &str) -> (out: Option<u64>)
        ensures
            out == self@.unsigned_at(key@),
    {
        match self.get(key) {
            Some(v) => v.as_u64(),
            None => None,
        }
    }

    /// The boolean held by the member `key`.
    pub fn boolean_at(&self, key: &str) -> (out: Option<bool>)
        ensures
            out == self@.boolean_at(key@),
    {
        match self.get(key) {
            Some(v) => v.as_bool(),
            None => None,
        }
    }
}

/// Declares `serde_json::Value`, of which nothing but the names below is
/// known here.
#[verifier::external_type_specification]
#[verifier::external_body]
pub struct ExSerdeValue(serde_json::Value);

/// Declares `serde_json::Error`, which is carried through unread.
#[verifier::external_type_specification]
#[verifier::external_body]
pub struct ExSerdeError(serde_json::Error);

/// The document that a `serde_json::Value` holds.
pub uninterp spec fn document_of(value: serde_json::Value) -> JsonModel;

/// The document that `serde_json::from_str` reads from a text, or `None`
/// where it reports an error.
pub uninterp spec fn json_document(text: Seq<char>) -> Option<JsonModel>;

/// Calls `serde_json::from_str` for a `serde_json::Value`. The outcome
/// depends on the text alone: a value that holds the document read from the
/// text, which this library names `json_document`, or the crate's error.
#[verifier::external_body]
fn value_from_str(text: &str) -> (out: Result<serde_json::Value, serde_json::Error>)
    ensures
        match out {
            Ok(v) => json_document(text@) == Some(document_of(v)),
            Err(_) => json_document(text@) is None,
        },
{
    serde_json::from_str::<serde_json::Value>(text)
}

/// Turns a `serde_json::Value` into the library's document, variant by
/// variant. A number is read through the crate's own accessors `as_u64`,
/// `as_i64` and `as_f64`; the members of an object keep the order of the
/// crate's map. The result is the document that the value holds.
#[verifier::external_body]
fn document_from_value(value: &Value) -> (out: JsonValue)
    ensures
        out@ == document_of(*value),
{
    match value {
        Value::Null => JsonValue::Null,
        Value::Bool(b) => JsonValue::Bool(*b),
        Value::Number(n) => JsonValue::Number(
            n.as_u64().map(JsonNumber::Unsigned).or(n.as_i64().map(JsonNumber::Negative)).unwrap_or(
                JsonNumber::Real(n.as_f64().map_or(0, |x| x.to_bits())),
            ),
        ),
        Value::String(s) => JsonValue::Text(s.clone()),
        Value::Array(a) => JsonValue::Array(a.iter().map(document_from_value).collect()),
        Value::Object(m) => JsonValue::Object(
            m.iter().map(|(k, v)| (k.clone(), document_from_value(v))).collect(),
        ),
    }
}

impl JsonValue {
    /// Reads a document from JSON text.
    pub fn parse(text: &str) -> (out: Result<JsonValue, serde_json::Error>)
        ensures
            match out {
                Ok(v) => json_document(text@) == Some(v@),
                Err(_) => json_document(text@) is None,
            },
    {
        match value_from_str(text) {
            Ok(value) => Ok(document_from_value(&value)),
            Err(e) => Err(e),
        }
    }
}

} // verus!

//! JSON documents as plain values.
//!
//! Reading JSON text is left to `serde_json`; the document it returns is
//! copied into [`Json`], on which everything else is proved.

use crate::text::str_eq;
use vstd::prelude::*;

verus! {

/// A JSON value.
pub enum Json {
    Null,
    Bool(bool),
    /// A number: as a signed and as an unsigned 64-bit integer, each where
    /// the number is a whole one within that range.
    Number { signed: Option<i64>, unsigned: Option<u64> },
    Text(String),
    Array(Vec<Json>),
    /// The members of an object; no key occurs twice.
    Object(Vec<Member>),
}

/// One member of a JSON object.
pub struct Member {
    pub key: String,
    pub value: Json,
    /// The value written out as compact JSON text.
    pub text: String,
}

/// `serde_json::Value`, of which nothing is known here but that it is a type.
#[verifier::external_type_specification]
#[verifier::external_body]
pub struct ExValue(serde_json::Value);

/// What reading a JSON text gives: the document that it denotes, or the
/// words of the complaint where it is not well formed.
pub uninterp spec fn json_reading(text: Seq<char>) -> Result<Json, Seq<char>>;

/// The document that a JSON text denotes, if it is well formed.
pub open spec fn json_document(text: Seq<char>) -> Option<Json> {
    match json_reading(text) {
        Ok(doc) => Some(doc),
        Err(_) => None,
    }
}

/// Copies a `serde_json::Value` into a [`Json`], variant by variant.
///
/// Trusted: a number keeps what `Number::as_i64` and `Number::as_u64` give;
/// an object keeps its members in the order in which `serde_json::Map` walks
/// them, each with the text that `Value`'s `Display` writes for it.  Nothing
/// is claimed of the result.
#[verifier::external_body]
fn json_from_value(v: &serde_json::Value) -> Json {
    match v {
        serde_json::Value::Null => Json::Null,
        serde_json::Value::Bool(b) => Json::Bool(*b),
        serde_json::Value::Number(n) => Json::Number { signed: n.as_i64(), unsigned: n.as_u64() },
        serde_json::Value::String(s) => Json::Text(s.clone()),
        serde_json::Value::Array(a) => Json::Array(a.iter().map(json_from_value).collect()),
        serde_json::Value::Object(m) => Json::Object(
            m.iter().map(|(k, x)| Member { key: k.clone(), value: json_from_value(x), text: x.to_string() })
                .collect(),
        ),
    }
}

/// Reads a JSON text; where it is not well formed, the error is the
/// complaint in words.
///
/// Trusted: calls `serde_json::from_str::<serde_json::Value>` and, on an
/// error, the error's `to_string`.  The contract only names the outcome: the
/// same text always gives the same result.
#[verifier::external_body]
pub(crate) fn read_json(text: &str) -> (r: Result<Json, String>)
    ensures
        match r {
            Ok(doc) => json_reading(text@) == Ok::<Json, Seq<char>>(doc),
            Err(e) => json_reading(text@) == Err::<Json, Seq<char>>(e@),
        },
{
    serde_json::from_str::<serde_json::Value>(text)
        .map(|v| json_from_value(&v))
        .map_err(|e| e.to_string())
}

/// Reads a JSON text.
pub fn parse_json(text: &str) -> (r: Option<Json>)
    ensures
        r == json_document(text@),
{
    match read_json(text) {
        Ok(doc) => Some(doc),
        Err(_) => None,
    }
}

/// The value of the first member at or after position `from` whose key is `key`.
pub open spec fn lookup(members: Seq<Member>, key: Seq<char>, from: int) -> Option<Json>
    decreases members.len() - from,
{
    if from < 0 || from >= members.len() {
        None
    } else if members[from].key@ == key {
        Some(members[from].value)
    } else {
        lookup(members, key, from + 1)
    }
}

impl Json {
    /// The member `key` of an object; `None` for a missing key and for a value
    /// that is no object.
    pub open spec fn member(self, key: Seq<char>) -> Option<Json> {
        match self {
            Json::Object(members) => lookup(members@, key, 0),
            _ => None,
        }
    }

    /// The characters of a text value.
    pub open spec fn text(self) -> Option<Seq<char>> {
        match self {
            Json::Text(s) => Some(s@),
            _ => None,
        }
    }

    /// The characters of the text member `key`.
    pub open spec fn text_member(self, key: Seq<char>) -> Option<Seq<char>> {
        match self.member(key) {
            Some(v) => v.text(),
            None => None,
        }
    }

    /// A number as a signed integer.
    pub open spec fn signed(self) -> Option<i64> {
        match self {
            Json::Number { signed, unsigned } => signed,
            _ => None,
        }
    }

    /// The number member `key` as a signed integer.
    pub open spec fn signed_member(self, key: Seq<char>) -> Option<i64> {
        match self.member(key) {
            Some(v) => v.signed(),
            None => None,
        }
    }

    /// A number as an unsigned integer.
    pub open spec fn unsigned(self) -> Option<u64> {
        match self {
            Json::Number { signed, unsigned } => unsigned,
            _ => None,
        }
    }

    /// The number member `key` as an unsigned integer.
    pub open spec fn unsigned_member(self, key: Seq<char>) -> Option<u64> {
        match self.member(key) {
            Some(v) => v.unsigned(),
            None => None,
        }
    }

    /// A truth value.
    pub open spec fn truth(self) -> Option<bool> {
        match self {
            Json::Bool(b) => Some(b),
            _ => None,
        }
    }

    /// The truth value of the member `key`.
    pub open spec fn truth_member(self, key: Seq<char>) -> Option<bool> {
        match self.member(key) {
            Some(v) => v.truth(),
            None => None,
        }
    }

    /// The elements of an array.
    pub open spec fn elements(self) -> Option<Seq<Json>> {
        match self {
            Json::Array(items) => Some(items@),
            _ => None,
        }
    }

    /// The elements of the array member `key`.
    pub open spec fn array_member(self, key: Seq<char>) -> Option<Seq<Json>> {
        match self.member(key) {
            Some(v) => v.elements(),
            None => None,
        }
    }

    /// The members of an object.
    pub open spec fn members(self) -> Option<Seq<Member>> {
        match self {
            Json::Object(members) => Some(members@),
            _ => None,
        }
    }

    /// The members of the object member `key`.
    pub open spec fn object_member(self, key: Seq<char>) -> Option<Seq<Member>> {
        match self.member(key) {
            Some(v) => v.members(),
            None => None,
        }
    }

    /// The characters of the text member `key`, or `fallback` where there is none.
    pub open spec fn text_or(self, key: Seq<char>, fallback: Seq<char>) -> Seq<char> {
        match self.text_member(key) {
            Some(t) => t,
            None => fallback,
        }
    }

    /// The member `key` of an object.
    pub fn get(&self, key: &str) -> (r: Option<&Json>)
        ensures
            match r {
                Some(v) => self.member(key@) == Some(*v),
                None => self.member(key@) is None,
            },
    {
        match self {
            Json::Object(members) => {
                let mut i: usize = 0;
                while i < members.len()
                    invariant
                        i <= members.len(),
                        self.member(key@) == lookup(members@, key@, i as int),
                    decreases members.len() - i,
                {
                    if str_eq(members[i].key.as_str(), key) {
                        return Some(&members[i].value);
                    }
                    i += 1;
                }
                None
            },
            _ => None,
        }
    }

    /// The text of a text value.
    pub fn as_str(&self) -> (r: Option<&String>)
        ensures
            match r {
                Some(s) => self.text() == Some(s@),
                None => self.text() is None,
            },
    {
        match self {
            Json::Text(s) => Some(s),
            _ => None,
        }
    }

    /// The text of the text member `key`.
    pub fn get_str(&self, key: &str) -> (r: Option<&String>)
        ensures
            match r {
                Some(s) => self.text_member(key@) == Some(s@),
                None => self.text_member(key@) is None,
            },
    {
        match self.get(key) {
            Some(v) => v.as_str(),
            None => None,
        }
    }

    /// A number as a signed integer.
    pub fn as_i64(&self) -> (r: Option<i64>)
        ensures
            r == self.signed(),
    {
        match self {
            Json::Number { signed, unsigned } => *signed,
            _ => None,
        }
    }

    /// The number member `key` as a signed integer.
    pub fn get_i64(&self, key: &str) -> (r: Option<i64>)
        ensures
            r == self.signed_member(key@),
    {
        match self.get(key) {
            Some(v) => v.as_i64(),
            None => None,
        }
    }

    /// A number as an unsigned integer.
    pub fn as_u64(&self) -> (r: Option<u64>)
        ensures
            r == self.unsigned(),
    {
        match self {
            Json::Number { signed, unsigned } => *unsigned,
            _ => None,
        }
    }

    /// The number member `key` as an unsigned integer.
    pub fn get_u64(&self, key: &str) -> (r: Option<u64>)
        ensures
            r == self.unsigned_member(key@),
    {
        match self.get(key) {
            Some(v) => v.as_u64(),
            None => None,
        }
    }

    /// A truth value.
    pub fn as_bool(&self) -> (r: Option<bool>)
        ensures
            r == self.truth(),
    {
        match self {
            Json::Bool(b) => Some(*b),
            _ => None,
        }
    }

    /// The truth value of the member `key`.
    pub fn get_bool(&self, key: &str) -> (r: Option<bool>)
        ensures
            r == self.truth_member(key@),
    {
        match self.get(key) {
            Some(v) => v.as_bool(),
            None => None,
        }
    }

    /// The elements of an array.
    pub fn as_array(&self) -> (r: Option<&Vec<Json>>)
        ensures
            match r {
                Some(items) => self.elements() == Some(items@),
                None => self.elements() is None,
            },
    {
        match self {
            Json::Array(items) => Some(items),
            _ => None,
        }
    }

    /// The elements of the array member `key`.
    pub fn get_array(&self, key: &str) -> (r: Option<&Vec<Json>>)
        ensures
            match r {
                Some(items) => self.array_member(key@) == Some(items@),
                None => self.array_member(key@) is None,
            },
    {
        match self.get(key) {
            Some(v) => v.as_array(),
            None => None,
        }
    }

    /// The members of an object.
    pub fn as_object(&self) -> (r: Option<&Vec<Member>>)
        ensures
            match r {
                Some(members) => self.members() == Some(members@),
                None => self.members() is None,
            },
    {
        match self {
            Json::Object(members) => Some(members),
            _ => None,
        }
    }

    /// The members of the object member `key`.
    pub fn get_object(&self, key: &str) -> (r: Option<&Vec<Member>>)
        ensures
            match r {
                Some(members) => self.object_member(key@) == Some(members@),
                None => self.object_member(key@) is None,
            },
    {
        match self.get(key) {
            Some(v) => v.as_object(),
            None => None,
        }
    }

    /// The text of the text member `key`, or `fallback` where there is none.
    pub fn get_str_or(&self, key: &str, fallback: &str) -> (r: String)
        ensures
            r@ == self.text_or(key@, fallback@),
    {
        match self.get_str(key) {
            Some(t) => t.clone(),
            None => fallback.to_owned(),
        }
    }
}

} // verus!

//! JSON values as tools and servers hand them over.

use vstd::prelude::*;

use crate::text::{opt_text, same_text};

verus! {

/// A JSON value. Of a number it keeps the value where that is a whole number
/// from zero to `u64::MAX` written as an integer.
#[derive(Debug)]
pub enum Json {
    Null,
    Bool(bool),
    Unsigned(u64),
    OtherNumber,
    Text(String),
    Array(Vec<Json>),
    Object(Vec<(String, Json)>),
}

/// The value of the last field with the given name.
pub open spec fn field_of(fields: Seq<(String, Json)>, key: Seq<char>) -> Option<Json>
    decreases fields.len(),
{
    if fields.len() == 0 {
        None
    } else if fields.last().0@ == key {
        Some(fields.last().1)
    } else {
        field_of(fields.drop_last(), key)
    }
}

/// The value of a field of an object; other values have no fields.
pub open spec fn field(j: Json, key: Seq<char>) -> Option<Json> {
    match j {
        Json::Object(fields) => field_of(fields@, key),
        _ => None,
    }
}

/// The text of a JSON string.
pub open spec fn string_value(j: Json) -> Option<Seq<char>> {
    match j {
        Json::Text(s) => Some(s@),
        _ => None,
    }
}

/// The text of a field that holds a JSON string.
pub open spec fn string_field(j: Json, key: Seq<char>) -> Option<Seq<char>> {
    match field(j, key) {
        Some(v) => string_value(v),
        None => None,
    }
}

/// The value of a field that holds an unsigned integer.
pub open spec fn unsigned_field(j: Json, key: Seq<char>) -> Option<u64> {
    match field(j, key) {
        Some(Json::Unsigned(n)) => Some(n),
        _ => None,
    }
}

impl Json {
    /// The value of a field of an object.
    pub fn get(&self, key: &str) -> (r: Option<&Json>)
        ensures
            match r {
                Some(v) => field(*self, key@) == Some(*v),
                None => field(*self, key@) is None,
            },
    {
        match self {
            Json::Object(fields) => {
                let mut n: usize = fields.len();
                proof {
                    assert(fields@.take(n as int) =~= fields@);
                }
                while n > 0
                    invariant
                        *self == Json::Object(*fields),
                        n <= fields@.len(),
                        field_of(fields@, key@) == field_of(fields@.take(n as int), key@),
                    decreases n,
                {
                    proof {
                        assert(fields@.take(n as int).drop_last() =~= fields@.take(n - 1));
                    }
                    if same_text(fields[n - 1].0.as_str(), key) {
                        return Some(&fields[n - 1].1);
                    }
                    n -= 1;
                }
                None
            },
            _ => None,
        }
    }

    /// The text of a JSON string.
    pub fn as_str(&self) -> (r: Option<&str>)
        ensures
            opt_text(r) == string_value(*self),
    {
        match self {
            Json::Text(s) => Some(s.as_str()),
            _ => None,
        }
    }

    /// The text of a field that holds a JSON string.
    pub fn get_str(&self, key: &str) -> (r: Option<&str>)
        ensures
            opt_text(r) == string_field(*self, key@),
    {
        match self.get(key) {
            Some(v) => v.as_str(),
            None => None,
        }
    }

    /// The value of a field that holds an unsigned integer.
    pub fn get_u64(&self, key: &str) -> (r: Option<u64>)
        ensures
            r == unsigned_field(*self, key@),
    {
        match self.get(key) {
            Some(Json::Unsigned(n)) => Some(*n),
            _ => None,
        }
    }
}

/// A field of an object has the value that stands last under its name, and none where
/// the name is not there. Values that are no objects have no fields.
pub proof fn law_fields_have_their_last_value(
    fields: Seq<(String, Json)>,
    key: Seq<char>,
    i: int,
)
    ensures
        0 <= i < fields.len() && fields[i].0@ == key && (forall|k: int|
            i < k < fields.len() ==> (#[trigger] fields[k]).0@ != key) ==> field_of(fields, key)
            == Some(fields[i].1),
        (forall|k: int| 0 <= k < fields.len() ==> (#[trigger] fields[k]).0@ != key) ==> field_of(
            fields,
            key,
        ) is None,
    decreases fields.len(),
{
    if fields.len() > 0 {
        law_fields_have_their_last_value(fields.drop_last(), key, i);
        let last = fields.len() - 1;
        assert(fields[last] == fields.last());
        if fields.last().0@ == key && 0 <= i < last {
            assert(!(forall|k: int| i < k < fields.len() ==> (#[trigger] fields[k]).0@ != key));
        }
        assert forall|k: int| 0 <= k < last implies fields.drop_last()[k] == fields[k] by {}
    }
}

/// Of a value, an object alone has fields, and a JSON string alone a text; a field holds
/// a text or an unsigned integer where its value is one.
pub proof fn law_values_are_read_by_their_kind(j: Json, key: Seq<char>)
    ensures
        match j {
            Json::Object(fields) => field(j, key) == field_of(fields@, key),
            _ => field(j, key) is None,
        },
        match j {
            Json::Text(s) => string_value(j) == Some(s@),
            _ => string_value(j) is None,
        },
        match field(j, key) {
            Some(Json::Text(s)) => string_field(j, key) == Some(s@),
            _ => string_field(j, key) is None,
        },
        match field(j, key) {
            Some(Json::Unsigned(n)) => unsigned_field(j, key) == Some(n),
            _ => unsigned_field(j, key) is None,
        },
{
}

} // verus!

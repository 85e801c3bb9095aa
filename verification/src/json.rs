//! A JSON document as plain values, with the accessors the launcher reads
//! documents through.

use vstd::prelude::*;

verus! {

/// A JSON number, as far as the launcher reads numbers.
pub enum JsonNumber {
    /// A non-negative integer that fits in a `u64`.
    Unsigned(u64),
    /// A negative integer that fits in an `i64`.
    Negative(i64),
    /// Any other number (fractional or out of range).
    Other,
}

/// A JSON value.
pub enum Json {
    Null,
    Bool(bool),
    Number(JsonNumber),
    Str(String),
    Array(Vec<Json>),
    Object(Vec<JsonMember>),
}

/// One key of a JSON object with its value.
pub struct JsonMember {
    pub key: String,
    pub value: Json,
}

/// The value stored under `key` among `members` (the first one, should a key repeat).
pub open spec fn member_lookup(members: Seq<JsonMember>, key: Seq<char>) -> Option<Json>
    decreases members.len(),
{
    if members.len() == 0 {
        None
    } else if members[0].key@ == key {
        Some(members[0].value)
    } else {
        member_lookup(members.drop_first(), key)
    }
}

/// An optional reference seen as an optional value.
pub open spec fn deref_opt<T>(o: Option<&T>) -> Option<T> {
    match o {
        Some(v) => Some(*v),
        None => None,
    }
}

/// `o.and_then(|v| v.get(key))`: the member `key` of an optional value.
pub open spec fn get_in(o: Option<Json>, key: Seq<char>) -> Option<Json> {
    match o {
        Some(v) => v.field(key),
        None => None,
    }
}

/// `o.and_then(|v| v.as_str())`.
pub open spec fn str_in(o: Option<Json>) -> Option<Seq<char>> {
    match o {
        Some(Json::Str(s)) => Some(s@),
        _ => None,
    }
}

/// `o.and_then(|v| v.as_array())`.
pub open spec fn array_in(o: Option<Json>) -> Option<Seq<Json>> {
    match o {
        Some(Json::Array(items)) => Some(items@),
        _ => None,
    }
}

/// `o.and_then(|v| v.as_bool())`.
pub open spec fn bool_in(o: Option<Json>) -> Option<bool> {
    match o {
        Some(Json::Bool(b)) => Some(b),
        _ => None,
    }
}

/// `o.and_then(|v| v.as_u64())`.
pub open spec fn u64_in(o: Option<Json>) -> Option<u64> {
    match o {
        Some(Json::Number(JsonNumber::Unsigned(n))) => Some(n),
        _ => None,
    }
}

impl Json {
    /// The member `key` when this value is an object.
    pub open spec fn field(self, key: Seq<char>) -> Option<Json> {
        match self {
            Json::Object(members) => member_lookup(members@, key),
            _ => None,
        }
    }

    /// `serde_json::Value::get` with a string key.
    pub fn get(&self, key: &str) -> (r: Option<&Json>)
        ensures
            deref_opt(r) == self.field(key@),
    {
        match self {
            Json::Object(members) => {
                let k = key.to_owned();
                let mut i: usize = 0;
                assert(members@.skip(0) =~= members@);
                while i < members.len()
                    invariant
                        i <= members.len(),
                        k@ == key@,
                        self.field(key@) == member_lookup(members@, key@),
                        member_lookup(members@, key@) == member_lookup(
                            members@.skip(i as int),
                            key@,
                        ),
                    decreases members.len() - i,
                {
                    assert(members@.skip(i as int).drop_first() =~= members@.skip(i + 1));
                    assert(members@.skip(i as int)[0] == members@[i as int]);
                    if members[i].key == k {
                        assert(members[i as int].key@ == key@);
                        return Some(&members[i].value);
                    }
                    i = i + 1;
                }
                None
            },
            _ => None,
        }
    }

    /// `serde_json::Value::as_str`.
    pub fn as_str(&self) -> (r: Option<&String>)
        ensures
            match r {
                Some(s) => str_in(Some(*self)) == Some(s@),
                None => str_in(Some(*self)) is None,
            },
    {
        match self {
            Json::Str(s) => Some(s),
            _ => None,
        }
    }

    /// `serde_json::Value::as_array`.
    pub fn as_array(&self) -> (r: Option<&Vec<Json>>)
        ensures
            match r {
                Some(items) => array_in(Some(*self)) == Some(items@),
                None => array_in(Some(*self)) is None,
            },
    {
        match self {
            Json::Array(items) => Some(items),
            _ => None,
        }
    }

    /// `serde_json::Value::as_bool`.
    pub fn as_bool(&self) -> (r: Option<bool>)
        ensures
            r == bool_in(Some(*self)),
    {
        match self {
            Json::Bool(b) => Some(*b),
            _ => None,
        }
    }

    /// `serde_json::Value::as_u64`.
    pub fn as_u64(&self) -> (r: Option<u64>)
        ensures
            r == u64_in(Some(*self)),
    {
        match self {
            Json::Number(JsonNumber::Unsigned(n)) => Some(*n),
            _ => None,
        }
    }

    /// `serde_json::Value::is_object`.
    pub fn is_object(&self) -> (r: bool)
        ensures
            r == (*self is Object),
    {
        match self {
            Json::Object(_) => true,
            _ => false,
        }
    }
}

} // verus!

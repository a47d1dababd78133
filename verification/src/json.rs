//! A JSON-like tree of plain values.
//!
//! Provider responses are decoded by the caller into this tree before they
//! reach the engine, so every extraction rule below is checked against an
//! exact model.  Numbers carry the fixed-point representation described at
//! the crate root; a JSON number that is negative, non-finite or too large
//! to represent becomes [`JsonNumber::Invalid`] and is rejected wherever a
//! usable amount is required.

use vstd::prelude::*;

use crate::AMOUNT_SCALE;

verus! {

/// A JSON number as the engine sees it.
#[derive(Clone, Copy, Debug, PartialEq, Eq, Structural)]
pub enum JsonNumber {
    /// A value the provider served as a plain non-negative integer, kept
    /// exactly.
    Int(u64),
    /// Any other representable non-negative value, times [`AMOUNT_SCALE`].
    Fixed(u64),
    /// A number that cannot stand for an amount: negative, non-finite,
    /// or out of the representable range.
    Invalid,
}

/// A JSON value.  Objects keep their members in order; a key lookup takes
/// the first member with that key.
#[derive(Debug, PartialEq, Eq)]
pub enum JsonValue {
    Null,
    Bool(bool),
    Number(JsonNumber),
    Text(String),
    Array(Vec<JsonValue>),
    Object(Vec<(String, JsonValue)>),
}

/// The member of `members` at the first position whose key is `key`.
pub open spec fn spec_get_in(members: Seq<(String, JsonValue)>, key: Seq<char>) -> Option<
    JsonValue,
>
    decreases members.len(),
{
    if members.len() == 0 {
        None
    } else if members[0].0@ == key {
        Some(members[0].1)
    } else {
        spec_get_in(members.drop_first(), key)
    }
}

/// The value under `key` when `v` is an object holding that key.
pub open spec fn spec_get(v: JsonValue, key: Seq<char>) -> Option<JsonValue> {
    match v {
        JsonValue::Object(members) => spec_get_in(members@, key),
        _ => None,
    }
}

proof fn lemma_get_in_found(members: Seq<(String, JsonValue)>, key: Seq<char>, i: int)
    requires
        0 <= i < members.len(),
        members[i].0@ == key,
        forall|j: int| 0 <= j < i ==> members[j].0@ != key,
    ensures
        spec_get_in(members, key) == Some(members[i].1),
    decreases i,
{
    if i > 0 {
        lemma_get_in_found(members.drop_first(), key, i - 1);
    }
}

proof fn lemma_get_in_missing(members: Seq<(String, JsonValue)>, key: Seq<char>)
    requires
        forall|j: int| 0 <= j < members.len() ==> members[j].0@ != key,
    ensures
        spec_get_in(members, key) is None,
    decreases members.len(),
{
    if members.len() > 0 {
        lemma_get_in_missing(members.drop_first(), key);
    }
}

impl JsonValue {
    /// The value under `key` when `self` is an object holding that key.
    pub fn get<'a>(&'a self, key: &str) -> (r: Option<&'a JsonValue>)
        ensures
            match r {
                Some(x) => spec_get(*self, key@) == Some(*x),
                None => spec_get(*self, key@) is None,
            },
    {
        match self {
            JsonValue::Object(members) => {
                let n = members.len();
                for i in 0..n
                    invariant
                        n == members.len(),
                        *self == JsonValue::Object(*members),
                        forall|j: int| 0 <= j < i ==> members@[j].0@ != key@,
                {
                    if crate::text::str_eq(members[i].0.as_str(), key) {
                        proof {
                            lemma_get_in_found(members@, key@, i as int);
                        }
                        return Some(&members[i].1);
                    }
                }
                proof {
                    lemma_get_in_missing(members@, key@);
                }
                None
            },
            _ => None,
        }
    }

    /// The number held by `self`, when it is one.
    pub fn as_number(&self) -> (r: Option<JsonNumber>)
        ensures
            r == self.spec_as_number(),
    {
        match self {
            JsonValue::Number(n) => Some(*n),
            _ => None,
        }
    }

    /// The number held by a numeric value.
    pub open spec fn spec_as_number(self) -> Option<JsonNumber> {
        match self {
            JsonValue::Number(n) => Some(n),
            _ => None,
        }
    }
}

impl JsonNumber {
    /// The count of subunits this number stands for, when it is a whole
    /// count: an integer directly, or a fixed-point value with no
    /// fractional part.
    pub open spec fn spec_as_subunits(self) -> Option<u64> {
        match self {
            JsonNumber::Int(v) => Some(v),
            JsonNumber::Fixed(f) => if f % AMOUNT_SCALE == 0 {
                Some((f / AMOUNT_SCALE) as u64)
            } else {
                None
            },
            JsonNumber::Invalid => None,
        }
    }

    /// Executable form of [`Self::spec_as_subunits`].
    pub fn as_subunits(self) -> (r: Option<u64>)
        ensures
            r == self.spec_as_subunits(),
    {
        match self {
            JsonNumber::Int(v) => Some(v),
            JsonNumber::Fixed(f) => if f % AMOUNT_SCALE == 0 {
                Some(f / AMOUNT_SCALE)
            } else {
                None
            },
            JsonNumber::Invalid => None,
        }
    }

    /// This number as a fixed-point amount: `Int(v)` denotes `v` whole
    /// units, `Fixed(f)` denotes `f / AMOUNT_SCALE` units.  `None` when the
    /// number is invalid or the amount does not fit the fixed-point range.
    pub open spec fn spec_as_amount(self) -> Option<u64> {
        match self {
            JsonNumber::Int(v) => if v * AMOUNT_SCALE <= u64::MAX {
                Some((v * AMOUNT_SCALE) as u64)
            } else {
                None
            },
            JsonNumber::Fixed(f) => Some(f),
            JsonNumber::Invalid => None,
        }
    }

    /// Executable form of [`Self::spec_as_amount`].
    pub fn as_amount(self) -> (r: Option<u64>)
        ensures
            r == self.spec_as_amount(),
    {
        match self {
            JsonNumber::Int(v) => v.checked_mul(AMOUNT_SCALE),
            JsonNumber::Fixed(f) => Some(f),
            JsonNumber::Invalid => None,
        }
    }
}

} // verus!

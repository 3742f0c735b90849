//! JSON values as plain data, as tools receive their arguments.

use vstd::prelude::*;
use crate::text::str_eq;

verus! {

/// A JSON number, kept as serde_json keeps it: a non-negative integer, a
/// negative integer, or a floating-point number held as its printed text.
#[derive(Debug, Clone)]
pub enum JsonNumber {
    /// A non-negative integer.
    PosInt(u64),
    /// A negative integer.
    NegInt(i64),
    /// A floating-point number, by its decimal text.
    Float(String),
}

/// A JSON value. Objects keep their members as (key, value) pairs.
#[derive(Debug)]
pub enum JsonValue {
    /// `null`.
    Null,
    /// `true` or `false`.
    Bool(bool),
    /// A number.
    Number(JsonNumber),
    /// A string.
    String(String),
    /// An array.
    Array(Vec<JsonValue>),
    /// An object.
    Object(Vec<(String, JsonValue)>),
}

/// The index of the first member named `k`, or -1.
pub open spec fn member_index(ms: Seq<(String, JsonValue)>, k: Seq<char>) -> int
    decreases ms.len(),
{
    if ms.len() == 0 {
        -1
    } else if ms[0].0@ == k {
        0
    } else {
        let r = member_index(ms.drop_first(), k);
        if r < 0 {
            -1
        } else {
            r + 1
        }
    }
}

/// `member_index` finds the first member with the key, or says there is none.
pub proof fn lemma_member_index(ms: Seq<(String, JsonValue)>, k: Seq<char>)
    ensures
        -1 <= member_index(ms, k) < ms.len(),
        member_index(ms, k) >= 0 ==> ms[member_index(ms, k)].0@ == k && forall|j: int|
            0 <= j < member_index(ms, k) ==> ms[j].0@ != k,
        member_index(ms, k) < 0 ==> forall|j: int| 0 <= j < ms.len() ==> ms[j].0@ != k,
    decreases ms.len(),
{
    if ms.len() > 0 && ms[0].0@ != k {
        lemma_member_index(ms.drop_first(), k);
        assert forall|j: int| 0 < j < ms.len() implies ms[j] == ms.drop_first()[j - 1] by {}
    }
}

/// The value of member `k` of an object; nothing for other values or missing keys
/// (what `Value::get` with a string key gives).
pub open spec fn json_get(v: JsonValue, k: Seq<char>) -> Option<JsonValue> {
    match v {
        JsonValue::Object(ms) => {
            let i = member_index(ms@, k);
            if i < 0 {
                None
            } else {
                Some(ms@[i].1)
            }
        },
        _ => None,
    }
}

/// The text of a JSON string.
pub open spec fn json_str(v: JsonValue) -> Option<Seq<char>> {
    match v {
        JsonValue::String(s) => Some(s@),
        _ => None,
    }
}

/// The text of the string member `k`, if the member exists and is a string
/// (what `args.get(k).and_then(|v| v.as_str())` gives).
pub open spec fn str_arg(v: JsonValue, k: Seq<char>) -> Option<Seq<char>> {
    match json_get(v, k) {
        Some(x) => json_str(x),
        None => None,
    }
}

/// The boolean member `k`, if present and a boolean.
pub open spec fn bool_arg(v: JsonValue, k: Seq<char>) -> Option<bool> {
    match json_get(v, k) {
        Some(JsonValue::Bool(b)) => Some(b),
        _ => None,
    }
}

/// The member `k` as an unsigned integer (`as_u64`), if it is a non-negative integer.
pub open spec fn u64_arg(v: JsonValue, k: Seq<char>) -> Option<u64> {
    match json_get(v, k) {
        Some(JsonValue::Number(JsonNumber::PosInt(n))) => Some(n),
        _ => None,
    }
}

/// The member `k` as a signed integer (`as_i64`), if it is an integer within `i64`.
pub open spec fn i64_arg(v: JsonValue, k: Seq<char>) -> Option<i64> {
    match json_get(v, k) {
        Some(JsonValue::Number(JsonNumber::PosInt(n))) => if n <= i64::MAX as u64 {
            Some(n as i64)
        } else {
            None
        },
        Some(JsonValue::Number(JsonNumber::NegInt(n))) => Some(n),
        _ => None,
    }
}

impl JsonValue {
    /// The member `k` of an object (`Value::get`).
    pub fn get(&self, k: &str) -> (r: Option<&JsonValue>)
        ensures
            match r {
                Some(x) => json_get(*self, k@) == Some(*x),
                None => json_get(*self, k@) is None,
            },
    {
        match self {
            JsonValue::Object(ms) => {
                proof {
                    lemma_member_index(ms@, k@);
                }
                let mut i: usize = 0;
                while i < ms.len()
                    invariant
                        i <= ms@.len(),
                        *self == JsonValue::Object(*ms),
                        forall|j: int| 0 <= j < i ==> ms@[j].0@ != k@,
                    decreases ms@.len() - i,
                {
                    if str_eq(ms[i].0.as_str(), k) {
                        proof {
                            lemma_member_index(ms@, k@);
                        }
                        assert(member_index(ms@, k@) == i) by {
                            let m = member_index(ms@, k@);
                            if m < 0 {
                                assert(ms@[i as int].0@ != k@);
                            } else if m < i {
                            } else if m > i {
                            }
                        }
                        assert(json_get(*self, k@) == Some(ms@[i as int].1));
                        return Some(&ms[i].1);
                    }
                    i = i + 1;
                }
                assert(member_index(ms@, k@) < 0) by {
                    let m = member_index(ms@, k@);
                    if m >= 0 {
                        assert(ms@[m].0@ == k@);
                    }
                }
                None
            },
            _ => None,
        }
    }

    /// The text of a string value (`Value::as_str`).
    pub fn as_str(&self) -> (r: Option<&str>)
        ensures
            match r {
                Some(s) => json_str(*self) == Some(s@),
                None => json_str(*self) is None,
            },
    {
        match self {
            JsonValue::String(s) => Some(s.as_str()),
            _ => None,
        }
    }

    /// The string member `k`, if present and a string.
    pub fn str_member(&self, k: &str) -> (r: Option<&str>)
        ensures
            match r {
                Some(s) => str_arg(*self, k@) == Some(s@),
                None => str_arg(*self, k@) is None,
            },
    {
        match self.get(k) {
            Some(v) => v.as_str(),
            None => None,
        }
    }

    /// The boolean member `k`, if present and a boolean.
    pub fn bool_member(&self, k: &str) -> (r: Option<bool>)
        ensures
            r == bool_arg(*self, k@),
    {
        match self.get(k) {
            Some(JsonValue::Bool(b)) => Some(*b),
            _ => None,
        }
    }

    /// The member `k` as `u64`, if it is a non-negative integer.
    pub fn u64_member(&self, k: &str) -> (r: Option<u64>)
        ensures
            r == u64_arg(*self, k@),
    {
        match self.get(k) {
            Some(JsonValue::Number(JsonNumber::PosInt(n))) => Some(*n),
            _ => None,
        }
    }

    /// The member `k` as `i64`, if it is an integer in range.
    pub fn i64_member(&self, k: &str) -> (r: Option<i64>)
        ensures
            r == i64_arg(*self, k@),
    {
        match self.get(k) {
            Some(JsonValue::Number(JsonNumber::PosInt(n))) => {
                if *n <= i64::MAX as u64 {
                    Some(*n as i64)
                } else {
                    None
                }
            },
            Some(JsonValue::Number(JsonNumber::NegInt(n))) => Some(*n),
            _ => None,
        }
    }
}

} // verus!

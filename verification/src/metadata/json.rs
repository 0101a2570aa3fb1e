//! JSON values as the metadata providers answer them, and the reading of
//! their members, strings, numbers and arrays.

use crate::models::opt_text;
use crate::text::{chars_of, eq_str};
use vstd::prelude::*;

verus! {

/// A JSON value. A number keeps its value where it is an integer that fits
/// an `i64`, and its text; an object keeps its members in order.
#[derive(Debug)]
pub enum JsonValue {
    Null,
    Bool(bool),
    Number(Option<i64>, String),
    Str(String),
    Array(Vec<JsonValue>),
    Object(Vec<(String, JsonValue)>),
}

/// The first member of `m` named `key`.
pub open spec fn member_spec(m: Seq<(String, JsonValue)>, key: Seq<char>) -> Option<JsonValue>
    decreases m.len(),
{
    if m.len() == 0 {
        None
    } else if m[0].0@ == key {
        Some(m[0].1)
    } else {
        member_spec(m.drop_first(), key)
    }
}

/// The member `key` of an object; nothing for any other value.
pub open spec fn get_spec(v: JsonValue, key: Seq<char>) -> Option<JsonValue> {
    match v {
        JsonValue::Object(m) => member_spec(m@, key),
        _ => None,
    }
}

/// The member `key` of a value that may be missing.
pub open spec fn opt_get(v: Option<JsonValue>, key: Seq<char>) -> Option<JsonValue> {
    match v {
        Some(x) => get_spec(x, key),
        None => None,
    }
}

/// The text of a string value.
pub open spec fn opt_str(v: Option<JsonValue>) -> Option<Seq<char>> {
    match v {
        Some(JsonValue::Str(s)) => Some(s@),
        _ => None,
    }
}

/// The value of an integer that fits an `i64`.
pub open spec fn opt_i64(v: Option<JsonValue>) -> Option<i64> {
    match v {
        Some(JsonValue::Number(n, _)) => n,
        _ => None,
    }
}

/// The value of a boolean.
pub open spec fn opt_bool(v: Option<JsonValue>) -> Option<bool> {
    match v {
        Some(JsonValue::Bool(b)) => Some(b),
        _ => None,
    }
}

/// The elements of an array.
pub open spec fn opt_array(v: Option<JsonValue>) -> Option<Seq<JsonValue>> {
    match v {
        Some(JsonValue::Array(a)) => Some(a@),
        _ => None,
    }
}

/// The first of two values that is present.
pub open spec fn first_present(a: Option<JsonValue>, b: Option<JsonValue>) -> Option<JsonValue> {
    if a is Some {
        a
    } else {
        b
    }
}

/// A value taken out of a reference.
pub open spec fn deref_opt(v: Option<&JsonValue>) -> Option<JsonValue> {
    match v {
        Some(x) => Some(*x),
        None => None,
    }
}

/// The member `key` of an object.
pub fn member<'a>(v: &'a JsonValue, key: &str) -> (r: Option<&'a JsonValue>)
    ensures
        deref_opt(r) == get_spec(*v, key@),
{
    match v {
        JsonValue::Object(m) => {
            let mut i: usize = 0;
            assert(m@.skip(0) =~= m@);
            while i < m.len()
                invariant
                    i <= m@.len(),
                    get_spec(*v, key@) == member_spec(m@, key@),
                    member_spec(m@, key@) == member_spec(m@.skip(i as int), key@),
                decreases m@.len() - i,
            {
                assert(m@.skip(i as int)[0] == m@[i as int]);
                assert(m@.skip(i as int).drop_first() =~= m@.skip(i + 1));
                let name = chars_of(m[i].0.as_str());
                if eq_str(&name, key) {
                    return Some(&m[i].1);
                }
                i = i + 1;
            }
            None
        },
        _ => None,
    }
}

/// The member `key` of a value that may be missing.
pub fn member_of<'a>(v: Option<&'a JsonValue>, key: &str) -> (r: Option<&'a JsonValue>)
    ensures
        deref_opt(r) == opt_get(deref_opt(v), key@),
{
    match v {
        Some(x) => member(x, key),
        None => None,
    }
}

/// The text of a string value.
pub fn text_of(v: Option<&JsonValue>) -> (r: Option<String>)
    ensures
        opt_text(r) == opt_str(deref_opt(v)),
{
    match v {
        Some(JsonValue::Str(s)) => Some(s.clone()),
        _ => None,
    }
}

/// The value of an integer that fits an `i64`.
pub fn int_of(v: Option<&JsonValue>) -> (r: Option<i64>)
    ensures
        r == opt_i64(deref_opt(v)),
{
    match v {
        Some(JsonValue::Number(n, _)) => *n,
        _ => None,
    }
}

/// The value of a boolean.
pub fn bool_of(v: Option<&JsonValue>) -> (r: Option<bool>)
    ensures
        r == opt_bool(deref_opt(v)),
{
    match v {
        Some(JsonValue::Bool(b)) => Some(*b),
        _ => None,
    }
}

/// The elements of an array.
pub fn array_of<'a>(v: Option<&'a JsonValue>) -> (r: Option<&'a Vec<JsonValue>>)
    ensures
        match r {
            Some(a) => opt_array(deref_opt(v)) == Some(a@),
            None => opt_array(deref_opt(v)) is None,
        },
{
    match v {
        Some(JsonValue::Array(a)) => Some(a),
        _ => None,
    }
}

/// The first of two values that is present.
pub fn first_present_of<'a>(a: Option<&'a JsonValue>, b: Option<&'a JsonValue>) -> (r: Option<
    &'a JsonValue,
>)
    ensures
        deref_opt(r) == first_present(deref_opt(a), deref_opt(b)),
{
    match a {
        Some(_) => a,
        None => b,
    }
}

/// The string an element of a list of genres stands for: the element itself
/// where `itself` is set and it is a string, else its `name` string where
/// `named` is set.
pub open spec fn element_string(g: JsonValue, itself: bool, named: bool) -> Option<Seq<char>> {
    if itself && opt_str(Some(g)) is Some {
        opt_str(Some(g))
    } else if named {
        opt_str(get_spec(g, "name"@))
    } else {
        None
    }
}

/// The strings the elements of `s` stand for, in order, leaving out the
/// elements that stand for none.
pub open spec fn element_strings_spec(s: Seq<JsonValue>, itself: bool, named: bool) -> Seq<Seq<char>>
    decreases s.len(),
{
    if s.len() == 0 {
        Seq::empty()
    } else {
        let rest = element_strings_spec(s.drop_last(), itself, named);
        match element_string(s.last(), itself, named) {
            Some(t) => rest.push(t),
            None => rest,
        }
    }
}

/// The views of strings.
pub open spec fn texts(v: Seq<String>) -> Seq<Seq<char>> {
    v.map_values(|x: String| x@)
}

/// The strings the elements of an array stand for.
pub fn element_strings(a: &Vec<JsonValue>, itself: bool, named: bool) -> (r: Vec<String>)
    ensures
        texts(r@) == element_strings_spec(a@, itself, named),
{
    let mut out: Vec<String> = Vec::new();
    let mut i: usize = 0;
    while i < a.len()
        invariant
            i <= a@.len(),
            texts(out@) == element_strings_spec(a@.take(i as int), itself, named),
        decreases a@.len() - i,
    {
        assert(a@.take(i + 1).drop_last() =~= a@.take(i as int));
        assert(a@.take(i + 1).last() == a@[i as int]);
        let g = &a[i];
        let own = if itself {
            text_of(Some(g))
        } else {
            None
        };
        let picked = match own {
            Some(t) => Some(t),
            None => if named {
                text_of(member(g, "name"))
            } else {
                None
            },
        };
        match picked {
            Some(t) => {
                out.push(t);
            },
            None => {},
        }
        assert(texts(out@) =~= element_strings_spec(a@.take(i + 1), itself, named));
        i = i + 1;
    }
    assert(a@.take(a@.len() as int) =~= a@);
    out
}

} // verus!

//! The JSON documents that providers answer with, as plain data.
//!
//! A `Json` value mirrors a parsed JSON document: numbers keep the
//! distinction between non-negative integers, negative integers and
//! floating-point values (whose value no reader here looks at), and an
//! object is a list of members in the order it was built with (whatever
//! order the parser that built it hands them over in); a reader of a
//! member takes the first of that name. The free functions below
//! read a value the way the record parsers do: each takes an optional value
//! and answers `None` when the value is absent or of another kind.
use vstd::prelude::*;

verus! {

/// A JSON number.
#[derive(Debug, Clone, Copy)]
pub enum JsonNumber {
    /// A non-negative integer.
    PosInt(u64),
    /// A negative integer.
    NegInt(i64),
    /// A number with a fraction or an exponent.
    Float,
}

/// A JSON value.
#[derive(Debug)]
pub enum Json {
    Null,
    Bool(bool),
    Number(JsonNumber),
    Str(String),
    Array(Vec<Json>),
    Object(Vec<(String, Json)>),
}

/// The value of member `k` in the members `m` (the first one, should a key
/// occur twice).
pub open spec fn obj_lookup(m: Seq<(String, Json)>, k: Seq<char>) -> Option<Json>
    decreases m.len(),
{
    if m.len() == 0 {
        None
    } else if m[0].0@ == k {
        Some(m[0].1)
    } else {
        obj_lookup(m.drop_first(), k)
    }
}

/// The value behind an optional reference.
pub open spec fn dv(o: Option<&Json>) -> Option<Json> {
    match o {
        Some(x) => Some(*x),
        None => None,
    }
}

/// `value.get(key)`: member `k` of an object; `None` for any other value.
pub open spec fn jget(v: Option<Json>, k: Seq<char>) -> Option<Json> {
    match v {
        Some(Json::Object(m)) => obj_lookup(m@, k),
        _ => None,
    }
}

/// `value.as_str()`.
pub open spec fn jstr(v: Option<Json>) -> Option<Seq<char>> {
    match v {
        Some(Json::Str(s)) => Some(s@),
        _ => None,
    }
}

/// `value.as_array()`.
pub open spec fn jarr(v: Option<Json>) -> Option<Seq<Json>> {
    match v {
        Some(Json::Array(a)) => Some(a@),
        _ => None,
    }
}

/// Whether the value is an object (`value.as_object().is_some()`).
pub open spec fn jis_obj(v: Option<Json>) -> bool {
    v matches Some(Json::Object(_))
}

/// Element `i` of an array value.
pub open spec fn jat(v: Option<Json>, i: int) -> Option<Json> {
    match jarr(v) {
        Some(a) => if 0 <= i < a.len() {
            Some(a[i])
        } else {
            None
        },
        None => None,
    }
}

/// The first element of an array value.
pub open spec fn jfirst(v: Option<Json>) -> Option<Json> {
    jat(v, 0)
}

/// `value.as_i64()`: integers that fit in an `i64`.
pub open spec fn ji64(v: Option<Json>) -> Option<i64> {
    match v {
        Some(Json::Number(JsonNumber::PosInt(u))) => if u <= i64::MAX {
            Some(u as i64)
        } else {
            None
        },
        Some(Json::Number(JsonNumber::NegInt(i))) => Some(i),
        _ => None,
    }
}

/// `value.as_u64()`: non-negative integers.
pub open spec fn ju64(v: Option<Json>) -> Option<u64> {
    match v {
        Some(Json::Number(JsonNumber::PosInt(u))) => Some(u),
        _ => None,
    }
}

/// The string at `path` below `v`, read member by member.
pub open spec fn jstr_at(v: Option<Json>, k: Seq<char>) -> Option<Seq<char>> {
    jstr(jget(v, k))
}

/// Member `key` of `v` when `v` is an object.
pub fn get<'a>(v: Option<&'a Json>, key: &str) -> (r: Option<&'a Json>)
    ensures
        dv(r) == jget(dv(v), key@),
{
    match v {
        Some(Json::Object(m)) => {
            let k = crate::text::chars_of(key);
            let mut i: usize = 0;
            assert(m@.skip(0) == m@);
            while i < m.len()
                invariant
                    i <= m.len(),
                    k@ == key@,
                    jget(dv(v), key@) == obj_lookup(m@, key@),
                    obj_lookup(m@, key@) == obj_lookup(m@.skip(i as int), key@),
                decreases m.len() - i,
            {
                assert(m@.skip(i as int)[0] == m@[i as int]);
                assert(m@.skip(i as int).drop_first() == m@.skip(i + 1));
                if crate::text::str_eq(m[i].0.as_str(), &k) {
                    assert(m@[i as int].0@ == key@);
                    assert(obj_lookup(m@.skip(i as int), key@) == Some(m@[i as int].1));
                    return Some(&m[i].1);
                }
                i = i + 1;
            }
            None
        },
        _ => None,
    }
}

/// The string of a string value, as a new `String`.
pub fn str_of(v: Option<&Json>) -> (r: Option<String>)
    ensures
        crate::text::ostr(r) == jstr(dv(v)),
{
    match v {
        Some(Json::Str(s)) => Some(s.clone()),
        _ => None,
    }
}

/// The elements of an array value.
pub fn as_array<'a>(v: Option<&'a Json>) -> (r: Option<&'a Vec<Json>>)
    ensures
        match r {
            Some(a) => jarr(dv(v)) == Some(a@),
            None => jarr(dv(v)) is None,
        },
{
    match v {
        Some(Json::Array(a)) => Some(a),
        _ => None,
    }
}

/// Element `i` of an array value.
pub fn at<'a>(v: Option<&'a Json>, i: usize) -> (r: Option<&'a Json>)
    ensures
        dv(r) == jat(dv(v), i as int),
{
    match v {
        Some(Json::Array(a)) => if i < a.len() {
            Some(&a[i])
        } else {
            None
        },
        _ => None,
    }
}

/// The first element of an array value.
pub fn first<'a>(v: Option<&'a Json>) -> (r: Option<&'a Json>)
    ensures
        dv(r) == jfirst(dv(v)),
{
    at(v, 0)
}

/// Whether the value is an object.
pub fn is_object(v: Option<&Json>) -> (r: bool)
    ensures
        r == jis_obj(dv(v)),
{
    match v {
        Some(Json::Object(_)) => true,
        _ => false,
    }
}

/// `value.as_i64()`.
pub fn as_i64(v: Option<&Json>) -> (r: Option<i64>)
    ensures
        r == ji64(dv(v)),
{
    match v {
        Some(Json::Number(JsonNumber::PosInt(u))) => if *u <= 0x7fff_ffff_ffff_ffff {
            Some(*u as i64)
        } else {
            None
        },
        Some(Json::Number(JsonNumber::NegInt(i))) => Some(*i),
        _ => None,
    }
}

/// `value.as_u64()`.
pub fn as_u64(v: Option<&Json>) -> (r: Option<u64>)
    ensures
        r == ju64(dv(v)),
{
    match v {
        Some(Json::Number(JsonNumber::PosInt(u))) => Some(*u),
        _ => None,
    }
}

/// The string member `key` of `v`, as a new `String`.
pub fn str_at(v: Option<&Json>, key: &str) -> (r: Option<String>)
    ensures
        crate::text::ostr(r) == jstr_at(dv(v), key@),
{
    str_of(get(v, key))
}

/// The strings among the elements of an array, in order.
pub open spec fn jstrs(a: Seq<Json>) -> Seq<Seq<char>>
    decreases a.len(),
{
    if a.len() == 0 {
        seq![]
    } else {
        jstrs(a.drop_last()) + match jstr(Some(a.last())) {
            Some(s) => seq![s],
            None => seq![],
        }
    }
}

/// The string member `k` of each element of an array that has one, in
/// order.
pub open spec fn jmember_strs(a: Seq<Json>, k: Seq<char>) -> Seq<Seq<char>>
    decreases a.len(),
{
    if a.len() == 0 {
        seq![]
    } else {
        jmember_strs(a.drop_last(), k) + match jstr_at(Some(a.last()), k) {
            Some(s) => seq![s],
            None => seq![],
        }
    }
}

/// The strings of an array value; none when the value is not an array.
pub open spec fn jstr_list(v: Option<Json>) -> Seq<Seq<char>> {
    match jarr(v) {
        Some(a) => jstrs(a),
        None => seq![],
    }
}

/// The string members `k` of the elements of an array value; none when the
/// value is not an array.
pub open spec fn jmember_list(v: Option<Json>, k: Seq<char>) -> Seq<Seq<char>> {
    match jarr(v) {
        Some(a) => jmember_strs(a, k),
        None => seq![],
    }
}

/// The string value, or `default`.
pub open spec fn jstr_or(v: Option<Json>, default: Seq<char>) -> Seq<char> {
    match jstr(v) {
        Some(s) => s,
        None => default,
    }
}

/// The strings of an array value (`filter_map(as_str)`).
pub fn str_list(v: Option<&Json>) -> (r: Vec<String>)
    ensures
        crate::text::views(r@) == jstr_list(dv(v)),
{
    let mut r: Vec<String> = Vec::new();
    match v {
        Some(Json::Array(a)) => {
            let mut i: usize = 0;
            while i < a.len()
                invariant
                    i <= a.len(),
                    crate::text::views(r@) == jstrs(a@.take(i as int)),
                decreases a.len() - i,
            {
                assert(a@.take(i + 1).drop_last() == a@.take(i as int));
                assert(a@.take(i + 1).last() == a@[i as int]);
                let ghost before = crate::text::views(r@);
                match str_of(Some(&a[i])) {
                    Some(s) => {
                        r.push(s);
                        assert(crate::text::views(r@) =~= before.push(s@));
                    },
                    None => {},
                }
                i = i + 1;
            }
            assert(a@.take(a.len() as int) == a@);
        },
        _ => {},
    }
    r
}

/// The string members `key` of the elements of an array value.
pub fn member_list(v: Option<&Json>, key: &str) -> (r: Vec<String>)
    ensures
        crate::text::views(r@) == jmember_list(dv(v), key@),
{
    let mut r: Vec<String> = Vec::new();
    match v {
        Some(Json::Array(a)) => {
            let mut i: usize = 0;
            while i < a.len()
                invariant
                    i <= a.len(),
                    crate::text::views(r@) == jmember_strs(a@.take(i as int), key@),
                decreases a.len() - i,
            {
                assert(a@.take(i + 1).drop_last() == a@.take(i as int));
                assert(a@.take(i + 1).last() == a@[i as int]);
                let ghost before = crate::text::views(r@);
                match str_at(Some(&a[i]), key) {
                    Some(s) => {
                        r.push(s);
                        assert(crate::text::views(r@) =~= before.push(s@));
                    },
                    None => {},
                }
                i = i + 1;
            }
            assert(a@.take(a.len() as int) == a@);
        },
        _ => {},
    }
    r
}

/// The string value, or `default`.
pub fn str_or(v: Option<&Json>, default: &str) -> (r: String)
    ensures
        r@ == jstr_or(dv(v), default@),
{
    match str_of(v) {
        Some(s) => s,
        None => crate::text::owned(default),
    }
}

/// The first element of an array value, as a string.
pub fn first_str(v: Option<&Json>) -> (r: Option<String>)
    ensures
        crate::text::ostr(r) == jstr(jfirst(dv(v))),
{
    str_of(first(v))
}

} // verus!

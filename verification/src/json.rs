//! JSON documents as the provider sends them.
//!
//! Scalars carry what the mapping reads of them: a number its rendering and its
//! value, a string the number that its trimmed text denotes, if it denotes one.

use vstd::prelude::*;
use crate::reading::Reading;
use crate::text;

verus! {

/// A JSON number.
#[derive(Debug)]
pub struct NumberValue {
    /// The number as JSON renders it.
    pub text: String,
    /// Its value.
    pub reading: Reading,
    /// Its value, where it is a non-negative integer of at most 64 bits.
    pub whole: Option<u64>,
    /// Its value, where it is a signed integer of at most 64 bits.
    pub integer: Option<i64>,
}

/// A JSON string.
#[derive(Debug)]
pub struct TextValue {
    /// The characters of the string.
    pub text: String,
    /// The floating-point number that the trimmed text denotes, if it denotes one.
    pub reading: Option<Reading>,
}

/// A member of a JSON object.
#[derive(Debug)]
pub struct Member {
    pub name: String,
    pub value: Json,
}

/// A JSON value.
#[derive(Debug)]
pub enum Json {
    Null,
    Bool(bool),
    Number(NumberValue),
    Text(TextValue),
    List(Vec<Json>),
    Object(Vec<Member>),
}

/// Text that stands for nothing: blank, a dash, or the missing-number sentinel.
pub open spec fn missing_text(t: TextValue) -> bool {
    let s = text::trimmed(t.text@);
    ||| s.len() == 0
    ||| s == "-"@
    ||| s == "—"@
    ||| (t.reading matches Some(r) && r.sentinel())
}

/// A value that stands for nothing: null, missing text, the missing-number
/// sentinel, or a container that holds nothing else.
pub open spec fn missing(v: Json) -> bool
    decreases v,
{
    match v {
        Json::Null => true,
        Json::Bool(_) => false,
        Json::Number(n) => n.reading.sentinel(),
        Json::Text(t) => missing_text(t),
        Json::List(vs) => forall|i: int| 0 <= i < vs@.len() ==> missing(#[trigger] vs@[i]),
        Json::Object(ms) => forall|i: int|
            0 <= i < ms@.len() ==> missing((#[trigger] ms@[i]).value),
    }
}

/// The value of the first member with the given name.
pub open spec fn lookup<'a>(ms: Seq<Member>, name: Seq<char>) -> Option<&'a Json>
    decreases ms.len(),
{
    if ms.len() == 0 {
        None
    } else if ms[0].name@ == name {
        Some(&ms[0].value)
    } else {
        lookup(ms.drop_first(), name)
    }
}

/// Whether the text stands for nothing.
pub fn is_missing_text(t: &TextValue) -> (r: bool)
    ensures
        r == missing_text(*t),
{
    let s = text::trim(t.text.as_str());
    s.is_empty() || text::same(s, "-") || text::same(s, "—") || match t.reading {
        Some(r) => r.is_sentinel(),
        None => false,
    }
}

/// Whether the value stands for nothing.
pub fn is_missing(v: &Json) -> (r: bool)
    ensures
        r == missing(*v),
    decreases *v,
{
    match v {
        Json::Null => true,
        Json::Bool(_) => false,
        Json::Number(n) => n.reading.is_sentinel(),
        Json::Text(t) => is_missing_text(t),
        Json::List(vs) => {
            let mut i: usize = 0;
            while i < vs.len()
                invariant
                    i <= vs@.len(),
                    *v == Json::List(*vs),
                    forall|k: int| 0 <= k < i ==> missing(#[trigger] vs@[k]),
                decreases vs@.len() - i,
            {
                proof {
                    assert(decreases_to!(*v => v->List_0@[i as int]));
                }
                if !is_missing(&vs[i]) {
                    assert(!missing(v->List_0@[i as int]));
                    return false;
                }
                i = i + 1;
            }
            true
        },
        Json::Object(ms) => {
            let mut i: usize = 0;
            while i < ms.len()
                invariant
                    i <= ms@.len(),
                    *v == Json::Object(*ms),
                    forall|k: int| 0 <= k < i ==> missing((#[trigger] ms@[k]).value),
                decreases ms@.len() - i,
            {
                proof {
                    assert(decreases_to!(*v => v->Object_0@[i as int]));
                    assert(decreases_to!(*v => v->Object_0@[i as int].value));
                }
                if !is_missing(&ms[i].value) {
                    assert(!missing(v->Object_0@[i as int].value));
                    return false;
                }
                i = i + 1;
            }
            true
        },
    }
}

/// The value of the first member with the given name.
pub fn get<'a>(ms: &'a Vec<Member>, name: &str) -> (r: Option<&'a Json>)
    ensures
        r == lookup(ms@, name@),
{
    let mut i: usize = 0;
    assert(ms@.skip(0) =~= ms@);
    while i < ms.len()
        invariant
            i <= ms@.len(),
            lookup(ms@, name@) == lookup(ms@.skip(i as int), name@),
        decreases ms@.len() - i,
    {
        assert(ms@.skip(i as int)[0] == ms@[i as int]);
        assert(ms@.skip(i as int).drop_first() =~= ms@.skip(i + 1));
        if text::same(ms[i].name.as_str(), name) {
            return Some(&ms[i].value);
        }
        i = i + 1;
    }
    None
}

/// Some member of the object does not stand for nothing.
pub open spec fn has_content(ms: Seq<Member>) -> bool {
    exists|i: int| 0 <= i < ms.len() && !missing((#[trigger] ms[i]).value)
}

/// Whether some member of the object does not stand for nothing.
pub fn has_non_missing_values(ms: &Vec<Member>) -> (r: bool)
    ensures
        r == has_content(ms@),
{
    let mut i: usize = 0;
    while i < ms.len()
        invariant
            i <= ms@.len(),
            forall|k: int| 0 <= k < i ==> missing((#[trigger] ms@[k]).value),
        decreases ms@.len() - i,
    {
        if !is_missing(&ms[i].value) {
            return true;
        }
        i = i + 1;
    }
    false
}

/// Text stands for nothing where it is blank, a dash of either length with white space
/// around it, or the number that marks what is missing.
pub proof fn texts_that_stand_for_nothing(t: TextValue)
    ensures
        text::blank(t.text@) ==> missing_text(t),
        text::trimmed(t.text@) == "-"@ ==> missing_text(t),
        text::trimmed(t.text@) == "—"@ ==> missing_text(t),
        t.reading is Some && t.reading.unwrap().bits == 0x40C3_8780_0000_0000 ==> missing_text(t),
        !text::blank(t.text@) && text::trimmed(t.text@) != "-"@ && text::trimmed(t.text@) != "—"@
            && (t.reading is None || t.reading.unwrap().bits != 0x40C3_8780_0000_0000)
            ==> !missing_text(t),
{
}

/// Null stands for nothing, a truth value never does, and a list or an object does where
/// all that it holds does: also where it holds nothing.
pub proof fn values_that_stand_for_nothing(
    b: bool,
    n: NumberValue,
    t: TextValue,
    vs: Vec<Json>,
    ms: Vec<Member>,
)
    ensures
        missing(Json::Null),
        !missing(Json::Bool(b)),
        missing(Json::Number(n)) <==> n.reading.bits == 0x40C3_8780_0000_0000,
        missing(Json::Text(t)) <==> missing_text(t),
        missing(Json::List(vs)) <==> forall|i: int|
            0 <= i < vs@.len() ==> missing(#[trigger] vs@[i]),
        missing(Json::Object(ms)) <==> forall|i: int|
            0 <= i < ms@.len() ==> missing((#[trigger] ms@[i]).value),
        missing(Json::Object(ms)) <==> !has_content(ms@),
{
    let list = Json::List(vs);
    assert(missing(list) == (forall|i: int|
        0 <= i < list->List_0@.len() ==> missing(#[trigger] list->List_0@[i])));
}

/// A member is found by its name; of several with one name the first is.
pub proof fn the_first_member_of_a_name_is_found(ms: Seq<Member>, name: Seq<char>, k: int)
    ensures
        0 <= k < ms.len() && ms[k].name@ == name && (forall|i: int|
            0 <= i < k ==> (#[trigger] ms[i]).name@ != name) ==> lookup(ms, name) == Some(
            &ms[k].value,
        ),
        (forall|i: int| 0 <= i < ms.len() ==> (#[trigger] ms[i]).name@ != name) ==> lookup(
            ms,
            name,
        ) is None,
    decreases ms.len(),
{
    if ms.len() > 0 && ms[0].name@ != name {
        let rest = ms.drop_first();
        assert forall|i: int| 0 <= i < rest.len() implies #[trigger] rest[i] == ms[i + 1] by {}
        the_first_member_of_a_name_is_found(rest, name, k - 1);
    }
}

} // verus!

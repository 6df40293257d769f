//! JSON as the protocols see it: what a value holds, and the calls into
//! `serde_json` that build, read, print and parse one.
//!
//! Objects keep their members in the order in which they were written
//! (`serde_json`'s feature `preserve_order`).

use serde_json::Value;
use vstd::prelude::*;

verus! {

/// What a JSON value holds.
pub enum Json {
    Null,
    Bool(bool),
    /// A number without fraction and exponent, between the smallest `i64` and the
    /// largest `u64`.
    Int(int),
    /// Any other number, as it is printed.
    Real(Seq<char>),
    Text(Seq<char>),
    List(Seq<Json>),
    /// Members in their order, no two of one name.
    Object(Seq<(Seq<char>, Json)>),
}

#[verifier::external_type_specification]
#[verifier::external_body]
pub struct ExValue(serde_json::Value);

/// What a value of `serde_json` holds.
pub uninterp spec fn json_of(value: serde_json::Value) -> Json;

/// What `serde_json::from_str` reads a text as, where it is the text of a value.
pub uninterp spec fn json_parse(text: Seq<char>) -> Option<Json>;

/// The text that `serde_json::to_string` prints a value as.
pub uninterp spec fn json_text(json: Json) -> Seq<char>;

/// The value that `Value::pointer` finds by a path.
pub uninterp spec fn json_at(json: Json, path: Seq<char>) -> Option<Json>;

/// The names that an object's text gives its members, each once and in
/// alphabetical order, as `serde_json::from_str` reads them into a map.
pub uninterp spec fn json_names(text: Seq<char>) -> Option<Seq<Seq<char>>>;

/// What the value behind a reference holds, where there is one.
pub open spec fn found(value: Option<&Value>) -> Option<Json> {
    match value {
        Some(value) => Some(json_of(*value)),
        None => None,
    }
}

/// The value of the member of that name, among these members.
pub open spec fn named(members: Seq<(Seq<char>, Json)>, name: Seq<char>) -> Option<Json>
    decreases members.len(),
{
    if members.len() == 0 {
        None
    } else if members.last().0 == name {
        Some(members.last().1)
    } else {
        named(members.drop_last(), name)
    }
}

/// The value of an object's member of that name; none where there is no such
/// member, or no object.
pub open spec fn member(json: Json, name: Seq<char>) -> Option<Json> {
    match json {
        Json::Object(members) => named(members, name),
        _ => None,
    }
}

/// What a list of named values holds.
pub open spec fn members_of(members: Seq<(&str, Value)>) -> Seq<(Seq<char>, Json)> {
    members.map_values(|member: (&str, Value)| (member.0@, json_of(member.1)))
}

/// A name of lower-case letters and underscores.
pub open spec fn is_plain(name: Seq<char>) -> bool {
    &&& name.len() > 0
    &&& forall|i: int| 0 <= i < name.len() ==> 'a' <= #[trigger] name[i] <= 'z' || name[i] == '_'
}

/// The compact text of an object of one member, whose value is a text, both of
/// them plain.
pub open spec fn one_member_text(name: Seq<char>, text: Seq<char>) -> Seq<char> {
    seq!['{', '"'] + name + seq!['"', ':', '"'] + text + seq!['"', '}']
}

/// The path to a member of a member.
pub open spec fn path_of(outer: Seq<char>, inner: Seq<char>) -> Seq<char> {
    seq!['/'] + outer + seq!['/'] + inner
}

/// The member of an object's member.
pub open spec fn inner_member(json: Json, outer: Seq<char>, inner: Seq<char>) -> Option<Json> {
    match member(json, outer) {
        Some(holder) => member(holder, inner),
        None => None,
    }
}

/// The texts that a list of names holds, where there is one.
pub open spec fn names_in(names: Option<Vec<String>>) -> Option<Seq<Seq<char>>> {
    match names {
        Some(names) => Some(names@.map_values(|name: String| name@)),
        None => None,
    }
}

/// Whether a value has no fractions in it, and no more than so many lists and
/// objects inside one another.
pub open spec fn reads_back(json: Json, depth: nat) -> bool
    decreases depth,
{
    match json {
        Json::Null | Json::Bool(_) | Json::Int(_) | Json::Text(_) => true,
        Json::Real(_) => false,
        Json::List(items) => depth > 0 && forall|i: int|
            0 <= i < items.len() ==> reads_back(#[trigger] items[i], (depth - 1) as nat),
        Json::Object(members) => depth > 0 && forall|i: int|
            0 <= i < members.len() ==> reads_back((#[trigger] members[i]).1, (depth - 1) as nat),
    }
}

/// How deep lists and objects may stand inside one another in a text that
/// `serde_json` parses.
pub const MAX_DEPTH: usize = 127;

/// `<Value as Clone>::clone`: the copy holds what the value holds.
pub assume_specification[ <serde_json::Value as Clone>::clone ](value: &serde_json::Value) -> (copy:
    serde_json::Value)
    ensures
        json_of(copy) == json_of(*value),
;

/// `Value::from(())`: the null value.
#[verifier::external_body]
pub(crate) fn null() -> (value: Value)
    ensures
        json_of(value) == Json::Null,
{
    Value::from(())
}

/// `Value::from(&str)`: a text.
#[verifier::external_body]
pub(crate) fn text(content: &str) -> (value: Value)
    ensures
        json_of(value) == Json::Text(content@),
{
    Value::from(content)
}

/// `Value::from(i64)`: an integer.
#[verifier::external_body]
pub(crate) fn integer(number: i64) -> (value: Value)
    ensures
        json_of(value) == Json::Int(number as int),
{
    Value::from(number)
}

/// `Value::from(usize)`: an integer.
#[verifier::external_body]
pub(crate) fn count(number: usize) -> (value: Value)
    ensures
        json_of(value) == Json::Int(number as int),
{
    Value::from(number)
}

/// `Value::from(Vec<Value>)`: the list of the values in their order.
#[verifier::external_body]
pub(crate) fn list(items: Vec<Value>) -> (value: Value)
    ensures
        json_of(value) == Json::List(items@.map_values(|item: Value| json_of(item))),
{
    Value::from(items)
}

/// `<Value as FromIterator<(K, V)>>::from_iter`: the object of the members in
/// their order.
#[verifier::external_body]
pub(crate) fn object(members: Vec<(&str, Value)>) -> (value: Value)
    requires
        forall|i: int, j: int|
            0 <= i < j < members@.len() ==> (#[trigger] members@[i]).0@ != (
            #[trigger] members@[j]).0@,
    ensures
        json_of(value) == Json::Object(members_of(members@)),
{
    Value::from_iter(members)
}

/// `Value::get`, by a name: the member of that name, of an object.
#[verifier::external_body]
pub(crate) fn get<'a>(value: &'a Value, name: &str) -> (found_member: Option<&'a Value>)
    ensures
        found(found_member) == member(json_of(*value), name@),
{
    value.get(name)
}

/// `Value::pointer`: the value at a path. A path of two plain names leads to the
/// second one's member of the first one's member.
#[verifier::external_body]
pub(crate) fn get_at<'a>(value: &'a Value, path: &str) -> (found_value: Option<&'a Value>)
    ensures
        found(found_value) == json_at(json_of(*value), path@),
        forall|outer: Seq<char>, inner: Seq<char>|
            is_plain(outer) && is_plain(inner) && path@ == #[trigger] path_of(outer, inner)
                ==> found(found_value) == inner_member(json_of(*value), outer, inner),
{
    value.pointer(path)
}

/// `Value::as_str`: the content of a text.
#[verifier::external_body]
pub(crate) fn as_text(value: &Value) -> (content: Option<&str>)
    ensures
        match json_of(*value) {
            Json::Text(held) => content is Some && content->0@ == held,
            _ => content is None,
        },
{
    value.as_str()
}

/// `Value::is_null`: whether it is the null value.
#[verifier::external_body]
pub(crate) fn is_null(value: &Value) -> (null: bool)
    ensures
        null == (json_of(*value) is Null),
{
    value.is_null()
}

/// `Value::as_array`: the items of a list, in their order.
#[verifier::external_body]
pub(crate) fn as_list(value: &Value) -> (items: Option<&Vec<Value>>)
    ensures
        match json_of(*value) {
            Json::List(held) => items is Some && items->0@.map_values(|item: Value| json_of(item))
                == held,
            _ => items is None,
        },
{
    value.as_array()
}

/// `Value::as_object` and `Map::len`: how many members an object has.
#[verifier::external_body]
pub(crate) fn member_count(value: &Value) -> (members: Option<usize>)
    ensures
        match json_of(*value) {
            Json::Object(held) => members is Some && members->0 == held.len(),
            _ => members is None,
        },
{
    value.as_object().map(|members| members.len())
}

/// `serde_json::from_str::<Value>`: the value that the whole text stands for,
/// where it is the text of one. A text that is no more than an object with one
/// plain member reads as that object.
#[verifier::external_body]
pub(crate) fn parse(source: &str) -> (value: Option<Value>)
    ensures
        match value {
            Some(value) => json_parse(source@) == Some(json_of(value)),
            None => json_parse(source@) is None,
        },
        forall|name: Seq<char>, content: Seq<char>|
            is_plain(name) && is_plain(content) && source@ == #[trigger] one_member_text(
                name,
                content,
            ) ==> value is Some && json_of(value->0) == Json::Object(
                seq![(name, Json::Text(content))],
            ),
{
    serde_json::from_str(source).ok()
}

/// `serde_json::from_str::<BTreeMap<String, IgnoredAny>>`: the names of the
/// members of the object that the whole text stands for, where it is the text of
/// one; what the members hold is passed over. A text that is no more than an
/// object with one plain member has that name.
#[verifier::external_body]
pub(crate) fn member_names(source: &str) -> (names: Option<Vec<String>>)
    ensures
        names_in(names) == json_names(source@),
        forall|name: Seq<char>, content: Seq<char>|
            is_plain(name) && is_plain(content) && source@ == #[trigger] one_member_text(
                name,
                content,
            ) ==> names_in(names) == Some(seq![name]),
{
    let members: Option<std::collections::BTreeMap<String, serde::de::IgnoredAny>> =
        serde_json::from_str(source).ok();
    members.map(|members| members.into_keys().collect())
}

/// `serde_json::to_string`, on a value: its compact text, which holds no control
/// character below the space. A value without fractions reads back as itself
/// unless it is nested too deep.
#[verifier::external_body]
pub(crate) fn print(value: &Value) -> (printed: String)
    ensures
        printed@ == json_text(json_of(*value)),
        forall|i: int| 0 <= i < printed@.len() ==> ' ' <= #[trigger] printed@[i],
        reads_back(json_of(*value), MAX_DEPTH as nat) ==> json_parse(printed@) == Some(
            json_of(*value),
        ),
        forall|name: Seq<char>, content: Seq<char>|
            is_plain(name) && is_plain(content) && json_of(*value) == Json::Object(
                seq![(name, Json::Text(content))],
            ) ==> printed@ == #[trigger] one_member_text(name, content),
{
    serde_json::to_string(value).expect("a value serializes")
}

} // verus!

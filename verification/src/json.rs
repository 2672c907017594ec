//! JSON values as `serde_json` holds them, and what this crate relies on of them.

use vstd::prelude::*;

verus! {

/// `serde_json::Value`, held as it is: what is inside shows only through
/// `json_shape`.
#[verifier::external_type_specification]
#[verifier::external_body]
pub struct ExValue(serde_json::Value);

/// `serde_json::Error`, carried through and never looked into.
#[verifier::external_type_specification]
#[verifier::external_body]
pub struct ExJsonError(serde_json::Error);

/// What a JSON value is, one level deep.
pub enum JsonShape {
    Null,
    Bool(bool),
    /// A number that fits an `i64`.
    Integer(i64),
    /// Any other number.
    Real,
    /// A string, as its characters.
    Text(Seq<char>),
    /// An array, as its items in order.
    List(Seq<serde_json::Value>),
    /// An object, as its members by key.
    Object(Map<Seq<char>, serde_json::Value>),
}

/// The shape of a `serde_json::Value`: its variant and what the variant holds.
pub uninterp spec fn json_shape(value: serde_json::Value) -> JsonShape;

/// The value that `serde_json::from_str` reads from a text, if it reads one.
pub uninterp spec fn json_parsed(text: Seq<char>) -> Option<serde_json::Value>;

/// The compact text that a value's `Display` impl writes.
pub uninterp spec fn json_compact(value: serde_json::Value) -> Seq<char>;

/// The indented text that `serde_json::to_string_pretty` writes for a value.
pub uninterp spec fn json_pretty(value: serde_json::Value) -> Seq<char>;

/// The member of an object under a key; `None` for a missing key and for
/// anything that is no object.
pub open spec fn json_member(value: serde_json::Value, key: Seq<char>) -> Option<
    serde_json::Value,
> {
    match json_shape(value) {
        JsonShape::Object(members) => if members.contains_key(key) {
            Some(members[key])
        } else {
            None
        },
        _ => None,
    }
}

/// The text of a string value.
pub open spec fn json_text(value: serde_json::Value) -> Option<Seq<char>> {
    match json_shape(value) {
        JsonShape::Text(text) => Some(text),
        _ => None,
    }
}

/// The number of an integer value.
pub open spec fn json_integer(value: serde_json::Value) -> Option<i64> {
    match json_shape(value) {
        JsonShape::Integer(n) => Some(n),
        _ => None,
    }
}

/// The truth value of a boolean value.
pub open spec fn json_bool(value: serde_json::Value) -> Option<bool> {
    match json_shape(value) {
        JsonShape::Bool(b) => Some(b),
        _ => None,
    }
}

/// The items of an array value.
pub open spec fn json_items(value: serde_json::Value) -> Option<Seq<serde_json::Value>> {
    match json_shape(value) {
        JsonShape::List(items) => Some(items),
        _ => None,
    }
}

/// Whether a value is a number.
pub open spec fn json_is_number(value: serde_json::Value) -> bool {
    json_shape(value) is Integer || json_shape(value) is Real
}

/// `serde_json::from_str` at `Value`: the parsed value, or the parser's error.
/// The outcome depends on the text alone.
#[verifier::external_body]
pub(crate) fn from_str(text: &str) -> (parsed: Result<serde_json::Value, serde_json::Error>)
    ensures
        match parsed {
            Ok(value) => json_parsed(text@) == Some(value),
            Err(_) => json_parsed(text@) is None,
        },
{
    serde_json::from_str::<serde_json::Value>(text)
}

/// `Value::get` with a string key: the member of an object under that key, and
/// `None` for a missing key or a value that is no object.
#[verifier::external_body]
pub(crate) fn get<'a>(value: &'a serde_json::Value, key: &str) -> (found: Option<
    &'a serde_json::Value,
>)
    ensures
        match found {
            Some(member) => json_member(*value, key@) == Some(*member),
            None => json_member(*value, key@) is None,
        },
{
    value.get(key)
}

/// `Value::is_object` is true of objects only.
pub assume_specification[ serde_json::Value::is_object ](value: &serde_json::Value) -> (b: bool)
    ensures
        b == (json_shape(*value) is Object),
;

/// `Value::is_number` is true of numbers only.
pub assume_specification[ serde_json::Value::is_number ](value: &serde_json::Value) -> (b: bool)
    ensures
        b == json_is_number(*value),
;

/// `Value::as_str` hands out the text of a string value.
pub assume_specification<'a>[ serde_json::Value::as_str ](value: &'a serde_json::Value) -> (text:
    Option<&'a str>)
    ensures
        match text {
            Some(t) => json_text(*value) == Some(t@),
            None => json_text(*value) is None,
        },
;

/// `Value::as_bool` hands out the truth value of a boolean.
pub assume_specification[ serde_json::Value::as_bool ](value: &serde_json::Value) -> (b: Option<
    bool,
>)
    ensures
        b == json_bool(*value),
;

/// `Value::as_i64` hands out a number that fits an `i64`.
pub assume_specification[ serde_json::Value::as_i64 ](value: &serde_json::Value) -> (n: Option<
    i64,
>)
    ensures
        n == json_integer(*value),
;

/// `Value::as_array` hands out the items of an array.
pub assume_specification<'a>[ serde_json::Value::as_array ](value: &'a serde_json::Value) -> (items:
    Option<&'a Vec<serde_json::Value>>)
    ensures
        match items {
            Some(list) => json_items(*value) == Some(list@),
            None => json_items(*value) is None,
        },
;

/// `Clone` for `Value` is derived: the copy equals the value it was made of.
pub assume_specification[ <serde_json::Value as Clone>::clone ](
    value: &serde_json::Value,
) -> (copy: serde_json::Value)
    ensures
        copy == *value,
;

/// `Display` for `Value` writes the compact text of the value.
#[verifier::external_body]
pub(crate) fn to_compact(value: &serde_json::Value) -> (text: String)
    ensures
        text@ == json_compact(*value),
{
    value.to_string()
}

/// `serde_json::to_string_pretty` at `Value`: the indented text of the value.
/// The serializer fails only where a `Serialize` impl does, a key is no
/// string, or the writer fails; a `Value` has string keys, writes a number
/// that is not finite as `null`, and the writer is a `Vec`. So the text is
/// always given.
#[verifier::external_body]
pub(crate) fn to_string_pretty(value: &serde_json::Value) -> (text: Result<
    String,
    serde_json::Error,
>)
    ensures
        text is Ok,
        text matches Ok(t) ==> t@ == json_pretty(*value),
{
    serde_json::to_string_pretty(value)
}

/// `Value::from` at `&str`: a string value with that text.
#[verifier::external_body]
pub(crate) fn text_value(text: &str) -> (value: serde_json::Value)
    ensures
        json_shape(value) == JsonShape::Text(text@),
{
    serde_json::Value::from(text)
}

/// `Value::from` at `i64`: an integer value with that number.
#[verifier::external_body]
pub(crate) fn integer_value(n: i64) -> (value: serde_json::Value)
    ensures
        json_shape(value) == JsonShape::Integer(n),
{
    serde_json::Value::from(n)
}

/// `Map::new` under `Value::Object`: an object without members.
#[verifier::external_body]
pub(crate) fn empty_object() -> (value: serde_json::Value)
    ensures
        json_shape(value) == JsonShape::Object(Map::<Seq<char>, serde_json::Value>::empty()),
{
    serde_json::Value::Object(serde_json::Map::new())
}

/// `IndexMut` for `Value` with a string key, then an assignment: the object
/// gets or replaces the member under that key and keeps the others. On a value
/// that is neither an object nor null the index panics, so only objects are
/// let in.
#[verifier::external_body]
pub(crate) fn set_member(object: &mut serde_json::Value, key: &str, member: serde_json::Value)
    requires
        json_shape(*old(object)) is Object,
    ensures
        json_shape(*final(object)) == JsonShape::Object(
            json_shape(*old(object))->Object_0.insert(key@, member),
        ),
{
    object[key] = member;
}

/// The text of the string member under a key.
pub open spec fn member_text(value: serde_json::Value, key: Seq<char>) -> Option<Seq<char>> {
    match json_member(value, key) {
        Some(member) => json_text(member),
        None => None,
    }
}

/// The truth value of the boolean member under a key.
pub open spec fn member_bool(value: serde_json::Value, key: Seq<char>) -> Option<bool> {
    match json_member(value, key) {
        Some(member) => json_bool(member),
        None => None,
    }
}

/// The number of the integer member under a key, if it fits an `i32`.
pub open spec fn member_i32(value: serde_json::Value, key: Seq<char>) -> Option<i32> {
    match json_member(value, key) {
        Some(member) => match json_integer(member) {
            Some(n) => if i32::MIN <= n <= i32::MAX {
                Some(n as i32)
            } else {
                None
            },
            None => None,
        },
        None => None,
    }
}

/// Whether every item is a string.
pub open spec fn all_text(items: Seq<serde_json::Value>) -> bool {
    forall|i: int| 0 <= i < items.len() ==> (#[trigger] json_text(items[i])) is Some
}

/// The texts of a list of strings.
pub open spec fn item_texts(items: Seq<serde_json::Value>) -> Seq<Seq<char>> {
    Seq::new(items.len(), |i: int| json_text(items[i])->0)
}

/// The texts of the member under a key, if it is an array of strings.
pub open spec fn member_texts(value: serde_json::Value, key: Seq<char>) -> Option<
    Seq<Seq<char>>,
> {
    match json_member(value, key) {
        Some(member) => match json_items(member) {
            Some(items) => if all_text(items) {
                Some(item_texts(items))
            } else {
                None
            },
            None => None,
        },
        None => None,
    }
}

/// The views of a list of strings.
pub open spec fn string_views(strings: Seq<String>) -> Seq<Seq<char>> {
    strings.map_values(|s: String| s@)
}

/// Reads the string member under `key`.
pub fn text_member(value: &serde_json::Value, key: &str) -> (text: Option<String>)
    ensures
        match text {
            Some(t) => member_text(*value, key@) == Some(t@),
            None => member_text(*value, key@) is None,
        },
{
    match get(value, key) {
        Some(member) => match member.as_str() {
            Some(t) => Some(t.to_owned()),
            None => None,
        },
        None => None,
    }
}

/// Reads the boolean member under `key`.
pub fn bool_member(value: &serde_json::Value, key: &str) -> (b: Option<bool>)
    ensures
        b == member_bool(*value, key@),
{
    match get(value, key) {
        Some(member) => member.as_bool(),
        None => None,
    }
}

/// Reads the integer member under `key`, if it fits an `i32`.
pub fn i32_member(value: &serde_json::Value, key: &str) -> (n: Option<i32>)
    ensures
        n == member_i32(*value, key@),
{
    match get(value, key) {
        Some(member) => match member.as_i64() {
            Some(n) => if -2147483648 <= n && n <= 2147483647 {
                Some(n as i32)
            } else {
                None
            },
            None => None,
        },
        None => None,
    }
}

/// Reads the member under `key` as a list of strings.
pub fn texts_member(value: &serde_json::Value, key: &str) -> (texts: Option<Vec<String>>)
    ensures
        match texts {
            Some(list) => member_texts(*value, key@) == Some(string_views(list@)),
            None => member_texts(*value, key@) is None,
        },
{
    let member = match get(value, key) {
        Some(member) => member,
        None => {
            return None;
        },
    };
    let items = match member.as_array() {
        Some(items) => items,
        None => {
            return None;
        },
    };
    let mut list: Vec<String> = Vec::new();
    let mut i: usize = 0;
    while i < items.len()
        invariant
            i <= items.len(),
            list.len() == i,
            json_member(*value, key@) == Some(*member),
            json_items(*member) == Some(items@),
            forall|j: int| 0 <= j < i ==> json_text(#[trigger] items@[j]) == Some(list@[j]@),
        decreases items.len() - i,
    {
        match items[i].as_str() {
            Some(t) => {
                list.push(t.to_owned());
            },
            None => {
                assert(!all_text(items@));
                return None;
            },
        }
        i += 1;
    }
    assert(all_text(items@));
    assert(string_views(list@) =~= item_texts(items@));
    Some(list)
}

} // verus!

//! Reading and writing the JSON arguments of tool calls.

use crate::split;
use vstd::prelude::*;

verus! {

/// One replacement of a list of edits: the text to replace and its
/// replacement, where they are given as strings.
pub struct Edit {
    pub old: Option<String>,
    pub new: Option<String>,
}

/// The model of an edit.
#[verifier::ext_equal]
pub struct EditView {
    pub old: Option<Seq<char>>,
    pub new: Option<Seq<char>>,
}

impl View for Edit {
    type V = EditView;

    open spec fn view(&self) -> EditView {
        EditView { old: split::opt_text(self.old), new: split::opt_text(self.new) }
    }
}

/// The string that the member `key` of a JSON object holds.
pub uninterp spec fn json_field(input: Seq<char>, key: Seq<char>) -> Option<Seq<char>>;

/// The member `key` of a JSON object all of whose members are strings.
pub uninterp spec fn json_member(input: Seq<char>, key: Seq<char>) -> Option<Seq<char>>;

/// The strings at `old_key` and `new_key` of the objects in the array at `list`
/// of a JSON object.
pub uninterp spec fn json_edits(
    input: Seq<char>,
    list: Seq<char>,
    old_key: Seq<char>,
    new_key: Seq<char>,
) -> Option<Seq<EditView>>;

/// The JSON object with the one member `key`, a string.
pub uninterp spec fn json_of_one(key: Seq<char>, value: Seq<char>) -> Seq<char>;

/// The JSON object with two members, both strings.
pub uninterp spec fn json_of_two(
    key: Seq<char>,
    value: Seq<char>,
    other_key: Seq<char>,
    other: Seq<char>,
) -> Seq<char>;

/// `serde_json::from_str` into a `Value`, then `value[key].as_str()`: the
/// string at `key`. None where the text is no JSON, the value is no object,
/// or the member is missing or no string.
#[verifier::external_body]
pub(crate) fn field(input: &str, key: &str) -> (r: Option<String>)
    ensures
        split::opt_text(r) == json_field(input@, key@),
{
    match serde_json::from_str::<serde_json::Value>(input) {
        Ok(v) => v[key].as_str().map(String::from),
        Err(_) => None,
    }
}

/// `serde_json::from_str` into a map from strings to strings, then the
/// member at `key`. None where the text is no such map or has no such member.
#[verifier::external_body]
pub(crate) fn member(input: &str, key: &str) -> (r: Option<String>)
    ensures
        split::opt_text(r) == json_member(input@, key@),
{
    match serde_json::from_str::<std::collections::HashMap<String, String>>(input) {
        Ok(m) => m.get(key).cloned(),
        Err(_) => None,
    }
}

/// `serde_json::from_str` into a `Value`, then the array at `list`, each element
/// by the strings at `old_key` and `new_key`, as far as they are strings. None
/// where there is no such array.
#[verifier::external_body]
pub(crate) fn edits(
    input: &str,
    list: &str,
    old_key: &str,
    new_key: &str,
) -> (r: Option<Vec<Edit>>)
    ensures
        r is Some == json_edits(input@, list@, old_key@, new_key@) is Some,
        r matches Some(v) ==> json_edits(input@, list@, old_key@, new_key@) == Some(
            split::views(v@),
        ),
{
    let text = |e: &serde_json::Value, k: &str| e[k].as_str().map(String::from);
    match serde_json::from_str::<serde_json::Value>(input) {
        Ok(v) => v[list].as_array().map(|a| {
            a.iter().map(|e| Edit { old: text(e, old_key), new: text(e, new_key) }).collect()
        }),
        Err(_) => None,
    }
}

/// `serde_json::Value::to_string` of an object with one member, a string.
/// Reading the member back gives the string, whatever it holds.
#[verifier::external_body]
pub(crate) fn write_one(key: &str, value: &str) -> (r: String)
    ensures
        r@ == json_of_one(key@, value@),
        json_field(r@, key@) == Some(value@),
        json_member(r@, key@) == Some(value@),
{
    let mut m = serde_json::Map::new();
    m.insert(key.to_string(), serde_json::Value::from(value));
    serde_json::Value::Object(m).to_string()
}

/// `serde_json::Value::to_string` of an object with two members of different
/// names, both strings. Reading a member back gives what was written.
#[verifier::external_body]
pub(crate) fn write_two(key: &str, value: &str, other_key: &str, other: &str) -> (r: String)
    requires
        key@ != other_key@,
    ensures
        r@ == json_of_two(key@, value@, other_key@, other@),
        json_field(r@, key@) == Some(value@),
        json_field(r@, other_key@) == Some(other@),
        json_member(r@, key@) == Some(value@),
        json_member(r@, other_key@) == Some(other@),
{
    let mut m = serde_json::Map::new();
    m.insert(key.to_string(), serde_json::Value::from(value));
    m.insert(other_key.to_string(), serde_json::Value::from(other));
    serde_json::Value::Object(m).to_string()
}

} // verus!

//! JSON values: what they hold, how they are read and how they are made.
//!
//! `serde_json` reads, holds and writes the values. Everything the rest of the
//! library knows of them is the tree that [`json_tree`] names.

use serde_json::{Error, Value};
use vstd::prelude::*;

verus! {

/// What a JSON value holds.
pub enum JsonTree {
    Null,
    Bool(bool),
    /// A number from zero to the largest unsigned 64-bit integer.
    Unsigned(u64),
    /// Any other number, by how it is written.
    Number(Seq<char>),
    Text(Seq<char>),
    Array(Seq<JsonTree>),
    Object(Map<Seq<char>, JsonTree>),
}

/// A JSON value of `serde_json`, a container of texts, numbers, lists and
/// members by key.
#[verifier::external_type_specification]
#[verifier::external_body]
pub struct ExValue(Value);

/// Why `serde_json` could not read a text.
#[verifier::external_type_specification]
#[verifier::external_body]
pub struct ExError(Error);

/// The tree that a JSON value holds.
pub uninterp spec fn json_tree(value: Value) -> JsonTree;

/// The tree that `serde_json` reads from a text, if it is JSON.
pub uninterp spec fn json_of_text(text: Seq<char>) -> Option<JsonTree>;

/// How `serde_json` writes a tree, without spaces between its parts.
pub uninterp spec fn json_text(tree: JsonTree) -> Seq<char>;

// ---------------------------------------------------------------------------
// Trees
// ---------------------------------------------------------------------------

impl JsonTree {
    /// The member under `key`, if this is an object that has one.
    pub open spec fn member(self, key: Seq<char>) -> Option<JsonTree> {
        match self {
            JsonTree::Object(members) => if members.dom().contains(key) {
                Some(members[key])
            } else {
                None
            },
            _ => None,
        }
    }

    /// The element at `index`, if this is an array that is long enough.
    pub open spec fn element(self, index: int) -> Option<JsonTree> {
        match self {
            JsonTree::Array(items) => if 0 <= index < items.len() {
                Some(items[index])
            } else {
                None
            },
            _ => None,
        }
    }

    pub open spec fn text(self) -> Option<Seq<char>> {
        match self {
            JsonTree::Text(text) => Some(text),
            _ => None,
        }
    }

    pub open spec fn unsigned(self) -> Option<u64> {
        match self {
            JsonTree::Unsigned(n) => Some(n),
            _ => None,
        }
    }

    pub open spec fn flag(self) -> Option<bool> {
        match self {
            JsonTree::Bool(b) => Some(b),
            _ => None,
        }
    }

    /// The text under `key`.
    pub open spec fn text_at(self, key: Seq<char>) -> Option<Seq<char>> {
        match self.member(key) {
            Some(tree) => tree.text(),
            None => None,
        }
    }

    /// The text under `inner` in the member under `outer`.
    pub open spec fn text_in(self, outer: Seq<char>, inner: Seq<char>) -> Option<Seq<char>> {
        match self.member(outer) {
            Some(tree) => tree.text_at(inner),
            None => None,
        }
    }

    pub open spec fn unsigned_at(self, key: Seq<char>) -> Option<u64> {
        match self.member(key) {
            Some(tree) => tree.unsigned(),
            None => None,
        }
    }

    pub open spec fn flag_at(self, key: Seq<char>) -> Option<bool> {
        match self.member(key) {
            Some(tree) => tree.flag(),
            None => None,
        }
    }

    /// This tree without a member under `key`.
    pub open spec fn without(self, key: Seq<char>) -> JsonTree {
        match self {
            JsonTree::Object(members) => JsonTree::Object(members.remove(key)),
            _ => self,
        }
    }
}

/// The members of an object made of these entries: of two under one key the
/// later stays.
pub open spec fn members(entries: Seq<(Seq<char>, JsonTree)>) -> Map<Seq<char>, JsonTree>
    decreases entries.len(),
{
    if entries.len() == 0 {
        Map::empty()
    } else {
        members(entries.drop_last()).insert(entries.last().0, entries.last().1)
    }
}

/// The object made of these entries.
pub open spec fn object(entries: Seq<(Seq<char>, JsonTree)>) -> JsonTree {
    JsonTree::Object(members(entries))
}

pub open spec fn entry_trees(entries: Seq<(String, Value)>) -> Seq<(Seq<char>, JsonTree)> {
    entries.map_values(|entry: (String, Value)| (entry.0@, json_tree(entry.1)))
}

pub open spec fn value_trees(values: Seq<Value>) -> Seq<JsonTree> {
    values.map_values(|value: Value| json_tree(value))
}

// ---------------------------------------------------------------------------
// Reading
// ---------------------------------------------------------------------------

/// `serde_json::from_str` for a `Value`: whether a text is JSON, and the tree
/// it then holds, depend on the text alone.
#[verifier::external_body]
fn read_value(text: &str) -> (res: Result<Value, Error>)
    ensures
        res is Ok <==> json_of_text(text@) is Some,
        res matches Ok(value) ==> json_of_text(text@) == Some(json_tree(value)),
{
    serde_json::from_str(text)
}

/// The JSON value that `text` spells.
pub fn parse_json(text: &str) -> (res: Option<Value>)
    ensures
        res is Some <==> json_of_text(text@) is Some,
        res matches Some(value) ==> json_of_text(text@) == Some(json_tree(value)),
{
    match read_value(text) {
        Ok(value) => Some(value),
        Err(_) => None,
    }
}

/// `Value::get` with a key: the member of an object under the key, and nothing
/// for a value that is no object.
#[verifier::external_body]
pub(crate) fn member<'a>(value: &'a Value, key: &str) -> (res: Option<&'a Value>)
    ensures
        res is Some <==> json_tree(*value).member(key@) is Some,
        res matches Some(found) ==> json_tree(*value).member(key@) == Some(json_tree(*found)),
{
    value.get(key)
}

/// `Value::get` with an index: the element of an array at the index, and
/// nothing for a value that is no array.
#[verifier::external_body]
pub(crate) fn element<'a>(value: &'a Value, index: usize) -> (res: Option<&'a Value>)
    ensures
        res is Some <==> json_tree(*value).element(index as int) is Some,
        res matches Some(found) ==> json_tree(*value).element(index as int) == Some(
            json_tree(*found),
        ),
{
    value.get(index)
}

/// `Value::as_str`: the text of a JSON string, and nothing for any other value.
#[verifier::external_body]
pub(crate) fn text<'a>(value: &'a Value) -> (res: Option<&'a str>)
    ensures
        res is Some <==> json_tree(*value).text() is Some,
        res matches Some(found) ==> json_tree(*value).text() == Some(found@),
{
    value.as_str()
}

/// `Value::as_u64`: the number of a JSON value that is an unsigned 64-bit
/// integer, and nothing for any other value.
#[verifier::external_body]
pub(crate) fn unsigned(value: &Value) -> (res: Option<u64>)
    ensures
        res == json_tree(*value).unsigned(),
{
    value.as_u64()
}

/// `Value::as_bool`: the truth value of a JSON boolean, and nothing for any
/// other value.
#[verifier::external_body]
pub(crate) fn flag(value: &Value) -> (res: Option<bool>)
    ensures
        res == json_tree(*value).flag(),
{
    value.as_bool()
}

/// The text under `key`.
pub fn text_at(value: &Value, key: &str) -> (res: Option<String>)
    ensures
        res is Some <==> json_tree(*value).text_at(key@) is Some,
        res matches Some(found) ==> json_tree(*value).text_at(key@) == Some(found@),
{
    match member(value, key) {
        Some(found) => match text(found) {
            Some(found) => Some(found.to_owned()),
            None => None,
        },
        None => None,
    }
}

/// The text under `inner` in the member under `outer`.
pub fn text_in(value: &Value, outer: &str, inner: &str) -> (res: Option<String>)
    ensures
        res is Some <==> json_tree(*value).text_in(outer@, inner@) is Some,
        res matches Some(found) ==> json_tree(*value).text_in(outer@, inner@) == Some(found@),
{
    match member(value, outer) {
        Some(found) => text_at(found, inner),
        None => None,
    }
}

/// The unsigned number under `key`.
pub fn unsigned_at(value: &Value, key: &str) -> (res: Option<u64>)
    ensures
        res == json_tree(*value).unsigned_at(key@),
{
    match member(value, key) {
        Some(found) => unsigned(found),
        None => None,
    }
}

/// The truth value under `key`.
pub fn flag_at(value: &Value, key: &str) -> (res: Option<bool>)
    ensures
        res == json_tree(*value).flag_at(key@),
{
    match member(value, key) {
        Some(found) => flag(found),
        None => None,
    }
}

// ---------------------------------------------------------------------------
// Making and writing
// ---------------------------------------------------------------------------

/// `Value::String`: the JSON string of a text.
#[verifier::external_body]
pub(crate) fn text_value(text: &str) -> (res: Value)
    ensures
        json_tree(res) == JsonTree::Text(text@),
{
    Value::String(text.to_string())
}

/// `Value::from` for a `u64`: the JSON number.
#[verifier::external_body]
pub(crate) fn unsigned_value(n: u64) -> (res: Value)
    ensures
        json_tree(res) == JsonTree::Unsigned(n),
{
    Value::from(n)
}

/// `Value::Null`: the JSON null.
#[verifier::external_body]
pub(crate) fn null_value() -> (res: Value)
    ensures
        json_tree(res) == JsonTree::Null,
{
    Value::Null
}

/// `Value::Bool`: the JSON boolean.
#[verifier::external_body]
pub(crate) fn flag_value(b: bool) -> (res: Value)
    ensures
        json_tree(res) == JsonTree::Bool(b),
{
    Value::Bool(b)
}

/// `Value::Array`: the JSON array of these values in order.
#[verifier::external_body]
pub(crate) fn array_value(values: Vec<Value>) -> (res: Value)
    ensures
        json_tree(res) == JsonTree::Array(value_trees(values@)),
{
    Value::Array(values)
}

/// `Value::Object` of the `Map` collected from these entries: each key with
/// the value that came last under it.
#[verifier::external_body]
pub(crate) fn object_value(entries: Vec<(String, Value)>) -> (res: Value)
    ensures
        json_tree(res) == object(entry_trees(entries@)),
{
    Value::Object(entries.into_iter().collect())
}

/// `Map::remove` on what `Value::as_object_mut` gives: an object loses the
/// member under the key, and any other value stays as it is.
#[verifier::external_body]
pub(crate) fn remove_member(value: &mut Value, key: &str)
    ensures
        json_tree(*final(value)) == json_tree(*old(value)).without(key@),
{
    if let Some(members) = value.as_object_mut() {
        members.remove(key);
    }
}

/// `Value::to_string`: the text of a value is a function of its tree.
#[verifier::external_body]
fn write_value(value: &Value) -> (res: String)
    ensures
        res@ == json_text(json_tree(*value)),
{
    value.to_string()
}

/// The text of a value.
pub fn json_string(value: &Value) -> (res: String)
    ensures
        res@ == json_text(json_tree(*value)),
{
    write_value(value)
}

/// An entry of an object.
pub(crate) fn entry(key: &str, value: Value) -> (res: (String, Value))
    ensures
        res.0@ == key@,
        res.1 == value,
{
    (key.to_owned(), value)
}

/// An entry with a text.
pub(crate) fn text_entry(key: &str, text: &str) -> (res: (String, Value))
    ensures
        res.0@ == key@,
        json_tree(res.1) == JsonTree::Text(text@),
{
    (key.to_owned(), text_value(text))
}

/// An entry with an unsigned number.
pub(crate) fn unsigned_entry(key: &str, n: u64) -> (res: (String, Value))
    ensures
        res.0@ == key@,
        json_tree(res.1) == JsonTree::Unsigned(n),
{
    (key.to_owned(), unsigned_value(n))
}

/// An entry with a truth value.
pub(crate) fn flag_entry(key: &str, b: bool) -> (res: (String, Value))
    ensures
        res.0@ == key@,
        json_tree(res.1) == JsonTree::Bool(b),
{
    (key.to_owned(), flag_value(b))
}

// ---------------------------------------------------------------------------
// Laws
// ---------------------------------------------------------------------------

/// An object holds of each key the entry that stands last under it, and no
/// other key.
pub proof fn law_object_holds_its_entries(entries: Seq<(Seq<char>, JsonTree)>, i: int)
    requires
        0 <= i < entries.len(),
        forall|j: int| i < j < entries.len() ==> #[trigger] entries[j].0 != entries[i].0,
    ensures
        object(entries).member(entries[i].0) == Some(entries[i].1),
    decreases entries.len(),
{
    let before = entries.drop_last();
    if i < before.len() {
        assert(before[i] == entries[i]);
        assert(entries[entries.len() - 1].0 != entries[i].0);
        assert forall|j: int| i < j < before.len() implies #[trigger] before[j].0
            != before[i].0 by {
            assert(entries[j].0 != entries[i].0);
        }
        law_object_holds_its_entries(before, i);
    }
}

/// An object holds nothing under a key that none of its entries has.
pub proof fn law_object_holds_nothing_else(entries: Seq<(Seq<char>, JsonTree)>, key: Seq<char>)
    requires
        forall|j: int| 0 <= j < entries.len() ==> #[trigger] entries[j].0 != key,
    ensures
        object(entries).member(key) is None,
    decreases entries.len(),
{
    if entries.len() > 0 {
        let before = entries.drop_last();
        assert(entries[entries.len() - 1].0 != key);
        assert forall|j: int| 0 <= j < before.len() implies #[trigger] before[j].0 != key by {
            assert(entries[j].0 != key);
        }
        law_object_holds_nothing_else(before, key);
    }
}

/// What is read under a key is the value that stands there, if it is of the kind
/// that is asked for: a text as it is, a number as it is, a truth value as it is.
/// Of a value of another kind, and where there is none, nothing is read.
pub proof fn law_members_are_read(members: Map<Seq<char>, JsonTree>, key: Seq<char>)
    ensures
        ({
            let tree = JsonTree::Object(members);
            let here = members.dom().contains(key);
            &&& tree.member(key) is Some <==> here
            &&& here ==> tree.member(key) == Some(members[key])
            &&& forall|text: Seq<char>|
                tree.text_at(key) == Some(text) <==> here && members[key] == JsonTree::Text(text)
            &&& forall|n: u64|
                tree.unsigned_at(key) == Some(n) <==> here && members[key] == JsonTree::Unsigned(n)
            &&& forall|b: bool|
                tree.flag_at(key) == Some(b) <==> here && members[key] == JsonTree::Bool(b)
        }),
{
}

/// What is read under one key inside another is what is read under the second in
/// the object that stands under the first.
pub proof fn law_inner_members_are_read(
    members: Map<Seq<char>, JsonTree>,
    outer: Seq<char>,
    inner: Seq<char>,
)
    ensures
        members.dom().contains(outer) ==> JsonTree::Object(members).text_in(outer, inner)
            == members[outer].text_at(inner),
        !members.dom().contains(outer) ==> JsonTree::Object(members).text_in(outer, inner) is None,
{
}

/// What is no object has no members: nothing is read under any key.
pub proof fn law_only_objects_have_members(tree: JsonTree, key: Seq<char>, inner: Seq<char>)
    requires
        tree !is Object,
    ensures
        tree.member(key) is None,
        tree.text_at(key) is None,
        tree.text_in(key, inner) is None,
        tree.unsigned_at(key) is None,
        tree.flag_at(key) is None,
        tree.without(key) == tree,
{
}

/// A list is read by place, from the front; outside it there is nothing.
pub proof fn law_elements_are_read(items: Seq<JsonTree>, i: int)
    ensures
        0 <= i < items.len() ==> JsonTree::Array(items).element(i) == Some(items[i]),
        i < 0 || i >= items.len() ==> JsonTree::Array(items).element(i) is None,
{
}

/// Taking a member away takes that member away and no other.
pub proof fn law_one_member_goes(
    members: Map<Seq<char>, JsonTree>,
    key: Seq<char>,
    other: Seq<char>,
)
    ensures
        JsonTree::Object(members).without(key).member(key) is None,
        other != key ==> JsonTree::Object(members).without(key).member(other)
            == JsonTree::Object(members).member(other),
{
}

} // verus!

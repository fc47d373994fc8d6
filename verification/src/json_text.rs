//! JSON values of `serde_json`, and how a value is written out.

use crate::json::{
    entries_model, items_model, json_model, lemma_items_model, number_model, Json, JsonModel,
    JsonObject,
};
use crate::numerals::signed_decimal;
use vstd::prelude::*;

verus! {

/// A value of `serde_json`.
#[verifier::external_type_specification]
#[verifier::external_body]
pub struct ExValue(serde_json::Value);

/// The tree that a `serde_json::Value` holds.
pub uninterp spec fn value_tree(value: serde_json::Value) -> JsonModel;

/// The trees of values, in order.
pub open spec fn value_trees(values: Seq<serde_json::Value>) -> Seq<JsonModel> {
    values.map_values(|value: serde_json::Value| value_tree(value))
}

/// The map that a list of members builds up, a later member replacing an earlier one.
pub open spec fn members_tree(members: Seq<(String, serde_json::Value)>) -> Map<
    Seq<char>,
    JsonModel,
>
    decreases members.len(),
{
    if members.len() == 0 {
        Map::empty()
    } else {
        members_tree(members.drop_last()).insert(members.last().0@, value_tree(members.last().1))
    }
}

/// A `serde_json::Value` taken apart by its kind.
pub enum ValueParts {
    Null,
    Bool(bool),
    Number(serde_json::Number),
    Text(String),
    Array(Vec<serde_json::Value>),
    Object(Vec<(String, serde_json::Value)>),
}

/// The tree that the parts of a value make up.
pub open spec fn parts_tree(parts: ValueParts) -> JsonModel {
    match parts {
        ValueParts::Null => JsonModel::Null,
        ValueParts::Bool(b) => JsonModel::Bool(b),
        ValueParts::Number(number) => number_model(number),
        ValueParts::Text(text) => JsonModel::Text(text@),
        ValueParts::Array(items) => JsonModel::Array(value_trees(items@)),
        ValueParts::Object(members) => JsonModel::Object(members_tree(members@)),
    }
}

/// Whether no two members have the same key.
pub open spec fn distinct_keys(members: Seq<(String, serde_json::Value)>) -> bool {
    forall|i: int, j: int|
        0 <= i < j < members.len() ==> (#[trigger] members[i]).0@ != (#[trigger] members[j]).0@
}

/// The variants of `serde_json::Value`: hands out what the value holds, the members of an object
/// with their distinct keys.
#[verifier::external_body]
fn open_value(value: serde_json::Value) -> (parts: ValueParts)
    ensures
        parts_tree(parts) == value_tree(value),
        parts matches ValueParts::Object(members) ==> distinct_keys(members@),
{
    match value {
        serde_json::Value::Null => ValueParts::Null,
        serde_json::Value::Bool(b) => ValueParts::Bool(b),
        serde_json::Value::Number(number) => ValueParts::Number(number),
        serde_json::Value::String(text) => ValueParts::Text(text),
        serde_json::Value::Array(items) => ValueParts::Array(items),
        serde_json::Value::Object(members) => ValueParts::Object(members.into_iter().collect()),
    }
}

/// `serde_json::Value::from(())`: the value `null`.
#[verifier::external_body]
pub(crate) fn null_value() -> (value: serde_json::Value)
    ensures
        value_tree(value) == JsonModel::Null,
{
    serde_json::Value::from(())
}

/// `serde_json::Value::from(bool)`: the value `true` or `false`.
#[verifier::external_body]
pub(crate) fn bool_value(b: bool) -> (value: serde_json::Value)
    ensures
        value_tree(value) == JsonModel::Bool(b),
{
    serde_json::Value::from(b)
}

/// `serde_json::Value::from(u64)`: the number `n`.
#[verifier::external_body]
pub(crate) fn unsigned_value(n: u64) -> (value: serde_json::Value)
    ensures
        value_tree(value) == JsonModel::Integer(n as int),
{
    serde_json::Value::from(n)
}

/// `serde_json::Value::from(i64)`: the number `n`.
#[verifier::external_body]
pub(crate) fn signed_value(n: i64) -> (value: serde_json::Value)
    ensures
        value_tree(value) == JsonModel::Integer(n as int),
{
    serde_json::Value::from(n)
}

/// `serde_json::Value::from(Number)`: the number, unchanged.
#[verifier::external_body]
pub(crate) fn number_value(number: &serde_json::Number) -> (value: serde_json::Value)
    ensures
        value_tree(value) == number_model(*number),
{
    serde_json::Value::from(number.clone())
}

/// `serde_json::Value::from(&str)`: the text as a JSON string.
#[verifier::external_body]
pub(crate) fn text_value(text: &str) -> (value: serde_json::Value)
    ensures
        value_tree(value) == JsonModel::Text(text@),
{
    serde_json::Value::from(text)
}

/// `serde_json::Value::from(Vec<Value>)`: an array of the values, in order.
#[verifier::external_body]
pub(crate) fn array_value(items: Vec<serde_json::Value>) -> (value: serde_json::Value)
    ensures
        value_tree(value) == JsonModel::Array(value_trees(items@)),
{
    serde_json::Value::from(items)
}

/// `serde_json::Value::from_iter` on key-value pairs: an object with these members, a later one
/// replacing an earlier one with the same key.
#[verifier::external_body]
pub(crate) fn object_value(members: Vec<(String, serde_json::Value)>) -> (value: serde_json::Value)
    ensures
        value_tree(value) == JsonModel::Object(members_tree(members@)),
{
    serde_json::Value::from_iter(members)
}

/// The text that `serde_json` writes for a tree, without spaces or line breaks.
pub uninterp spec fn compact_text(tree: JsonModel) -> Seq<char>;

/// The text that `serde_json` writes for a tree over several indented lines, where it succeeds.
pub uninterp spec fn pretty_text(tree: JsonModel) -> Option<Seq<char>>;

/// The text of a tree: a scalar in full, and otherwise what the writer makes of it.
pub open spec fn scalar_or(tree: JsonModel, written: Seq<char>) -> Seq<char> {
    match tree {
        JsonModel::Null => "null"@,
        JsonModel::Bool(true) => "true"@,
        JsonModel::Bool(false) => "false"@,
        JsonModel::Integer(n) => signed_decimal(n),
        _ => written,
    }
}

/// The text of a JSON value without spaces or line breaks.
pub open spec fn json_text(tree: JsonModel) -> Seq<char> {
    scalar_or(tree, compact_text(tree))
}

/// `<serde_json::Value as Display>`: the value without spaces or line breaks. `null`, `true`,
/// `false` and an integer are written as such; every other text depends on the tree alone.
#[verifier::external_body]
pub(crate) fn value_text(value: &serde_json::Value) -> (text: String)
    ensures
        text@ == scalar_or(value_tree(*value), compact_text(value_tree(*value))),
{
    value.to_string()
}

/// `serde_json::to_string_pretty`: the value over several indented lines, a text that depends on
/// the tree alone, as does whether there is one.
#[verifier::external_body]
pub(crate) fn pretty_value_text(value: &serde_json::Value) -> (text: Option<String>)
    ensures
        match text {
            Some(t) => pretty_text(value_tree(*value)) == Some(t@),
            None => pretty_text(value_tree(*value)) is None,
        },
{
    serde_json::to_string_pretty(value).ok()
}

/// Each of several members with distinct keys is in the map.
proof fn lemma_member(members: Seq<(String, serde_json::Value)>, at: int)
    requires
        0 <= at < members.len(),
        distinct_keys(members),
    ensures
        members_tree(members).contains_key(members[at].0@),
        members_tree(members)[members[at].0@] == value_tree(members[at].1),
    decreases members.len(),
{
    if at < members.len() - 1 {
        let rest = members.drop_last();
        assert(distinct_keys(rest)) by {
            assert forall|i: int, j: int| 0 <= i < j < rest.len() implies (#[trigger] rest[i]).0@
                != (#[trigger] rest[j]).0@ by {
                assert(rest[i] == members[i] && rest[j] == members[j]);
            }
        }
        lemma_member(rest, at);
        assert(members[at].0@ != members[members.len() - 1].0@);
    }
}

proof fn lemma_members_finite(members: Seq<(String, serde_json::Value)>)
    ensures
        members_tree(members).dom().finite(),
    decreases members.len(),
{
    if members.len() > 0 {
        lemma_members_finite(members.drop_last());
    }
}

impl Json {
    /// The value of `serde_json` with the same tree.
    pub fn to_value(&self) -> (value: serde_json::Value)
        ensures
            value_tree(value) == self@,
        decreases *self,
    {
        match self {
            Json::Null => null_value(),
            Json::Bool(b) => bool_value(*b),
            Json::Unsigned(n) => unsigned_value(*n),
            Json::Signed(n) => signed_value(*n),
            Json::Number(number) => number_value(number),
            Json::Text(text) => text_value(text.as_str()),
            Json::Array(items) => {
                let mut values: Vec<serde_json::Value> = Vec::new();
                let n: usize = items.len();
                let mut i: usize = 0;
                while i < n
                    invariant
                        i <= n,
                        n == items@.len(),
                        *self == Json::Array(*items),
                        values@.len() == i,
                        forall|k: int|
                            0 <= k < i ==> value_tree(#[trigger] values@[k]) == json_model(items@[k]),
                    decreases n - i,
                {
                    proof {
                        assert(decreases_to!(*self => self->Array_0));
                        assert(decreases_to!(*items => items@));
                        assert(decreases_to!(items@ => items@[i as int]));
                    }
                    let value = items[i].to_value();
                    values.push(value);
                    i = i + 1;
                }
                proof {
                    lemma_items_model(items@);
                    assert(value_trees(values@) =~= items_model(items@));
                }
                array_value(values)
            },
            Json::Object(object) => {
                let mut members: Vec<(String, serde_json::Value)> = Vec::new();
                let n: usize = object.entries.len();
                let mut i: usize = 0;
                assert(object.entries@.take(0) =~= seq![]);
                while i < n
                    invariant
                        i <= n,
                        n == object.entries@.len(),
                        *self == Json::Object(*object),
                        members_tree(members@) == entries_model(object.entries@.take(i as int)),
                    decreases n - i,
                {
                    let key: String = object.entries[i].0.clone();
                    proof {
                        assert(decreases_to!(*self => self->Object_0));
                        assert(decreases_to!(*object => object.entries));
                        assert(decreases_to!(object.entries => object.entries@));
                        assert(decreases_to!(object.entries@ => object.entries@[i as int]));
                        assert(decreases_to!(object.entries@[i as int] => object.entries@[i as int].1));
                    }
                    let value = object.entries[i].1.to_value();
                    let ghost before = members@;
                    members.push((key, value));
                    proof {
                        assert(members@.drop_last() =~= before);
                        let longer = object.entries@.take(i + 1);
                        assert(longer.drop_last() =~= object.entries@.take(i as int));
                        assert(longer.last() == object.entries@[i as int]);
                    }
                    i = i + 1;
                }
                assert(object.entries@.take(n as int) =~= object.entries@);
                object_value(members)
            },
        }
    }

    /// The plain form of a value of `serde_json`.
    pub fn from_value(value: serde_json::Value) -> (json: Json)
        ensures
            json@ == value_tree(value),
        decreases value_tree(value),
    {
        let ghost tree = value_tree(value);
        match open_value(value) {
            ValueParts::Null => Json::Null,
            ValueParts::Bool(b) => Json::Bool(b),
            ValueParts::Number(number) => Json::Number(number),
            ValueParts::Text(text) => Json::Text(text),
            ValueParts::Array(items) => {
                let ghost all = items@;
                let mut array: Vec<Json> = Vec::new();
                for item in rest: items
                    invariant
                        tree == value_tree(value),
                        tree == JsonModel::Array(value_trees(all)),
                        rest.seq() == all,
                        array@.len() == rest.index(),
                        forall|k: int|
                            0 <= k < array@.len() ==> json_model(#[trigger] array@[k])
                                == value_tree(all[k]),
                {
                    proof {
                        let trees = value_trees(all);
                        assert(decreases_to!(tree => tree->Array_0));
                        assert(decreases_to!(trees => trees[rest.index() as int]));
                        assert(trees[rest.index() as int] == value_tree(item));
                    }
                    array.push(Json::from_value(item));
                }
                proof {
                    lemma_items_model(array@);
                    assert(items_model(array@) =~= value_trees(all));
                }
                Json::Array(array)
            },
            ValueParts::Object(members) => {
                let ghost all = members@;
                let mut entries: Vec<(String, Json)> = Vec::new();
                proof {
                    lemma_members_finite(all);
                    assert(all.take(0) =~= seq![]);
                }
                for member in rest: members
                    invariant
                        tree == value_tree(value),
                        tree == JsonModel::Object(members_tree(all)),
                        members_tree(all).dom().finite(),
                        distinct_keys(all),
                        rest.seq() == all,
                        entries@.len() == rest.index(),
                        entries_model(entries@) == members_tree(all.take(entries@.len() as int)),
                {
                    let ghost at = entries@.len() as int;
                    proof {
                        let trees = members_tree(all);
                        lemma_member(all, at);
                        assert(decreases_to!(tree => tree->Object_0));
                        assert(decreases_to!(trees => trees[all[at].0@]));
                    }
                    let ghost before = entries@;
                    entries.push((member.0, Json::from_value(member.1)));
                    proof {
                        assert(entries@.drop_last() =~= before);
                        assert(all.take(at + 1).drop_last() =~= all.take(at));
                    }
                }
                assert(all.take(all.len() as int) =~= all);
                Json::Object(JsonObject { entries })
            },
        }
    }

    /// The value without spaces or line breaks.
    pub fn to_text(&self) -> (text: String)
        ensures
            text@ == json_text(self@),
    {
        value_text(&self.to_value())
    }
}

impl Clone for Json {
    fn clone(&self) -> (copy: Self)
        ensures
            copy@ == self@,
    {
        Json::from_value(self.to_value())
    }
}

impl Clone for JsonObject {
    fn clone(&self) -> (copy: Self)
        ensures
            copy@ == self@,
    {
        let n: usize = self.entries.len();
        let mut entries: Vec<(String, Json)> = Vec::new();
        let mut i: usize = 0;
        assert(self.entries@.take(0) =~= seq![]);
        while i < n
            invariant
                i <= n,
                n == self.entries@.len(),
                entries_model(entries@) == entries_model(self.entries@.take(i as int)),
            decreases n - i,
        {
            let ghost before = entries@;
            entries.push((self.entries[i].0.clone(), self.entries[i].1.clone()));
            proof {
                assert(entries@.drop_last() =~= before);
                let longer = self.entries@.take(i + 1);
                assert(longer.drop_last() =~= self.entries@.take(i as int));
                assert(longer.last() == self.entries@[i as int]);
            }
            i = i + 1;
        }
        assert(self.entries@.take(n as int) =~= self.entries@);
        JsonObject { entries }
    }
}

} // verus!

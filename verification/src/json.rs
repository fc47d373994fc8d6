//! JSON values held as plain data, and the tree that a value stands for.

use crate::text::same_text;
use vstd::prelude::*;

verus! {

/// A JSON value.
///
/// `Number` carries a number of any kind; the two integer variants are the plain form of the
/// numbers that fit in 64 bits.
#[derive(Debug)]
pub enum Json {
    Null,
    Bool(bool),
    Unsigned(u64),
    Signed(i64),
    Number(serde_json::Number),
    Text(String),
    Array(Vec<Json>),
    Object(JsonObject),
}

/// A JSON object. When a key was inserted more than once, the last value counts.
#[derive(Debug)]
pub struct JsonObject {
    pub entries: Vec<(String, Json)>,
}

/// What a JSON value says, without regard to how it is stored.
#[verifier::ext_equal]
pub enum JsonModel {
    Null,
    Bool(bool),
    Integer(int),
    Fraction(serde_json::Number),
    Text(Seq<char>),
    Array(Seq<JsonModel>),
    Object(Map<Seq<char>, JsonModel>),
}

/// A number of `serde_json`.
#[verifier::external_type_specification]
#[verifier::external_body]
pub struct ExNumber(serde_json::Number);

/// The integer that a number of `serde_json` is, if it is one.
pub uninterp spec fn number_integer(number: serde_json::Number) -> Option<i128>;

/// `serde_json::Number::as_i128`: the number as an integer, or nothing when it is a fraction.
#[verifier::external_body]
pub(crate) fn number_as_integer(number: &serde_json::Number) -> (integer: Option<i128>)
    ensures
        integer == number_integer(*number),
{
    number.as_i128()
}

/// The tree of a number: an integer where it is one.
pub open spec fn number_model(number: serde_json::Number) -> JsonModel {
    match number_integer(number) {
        Some(n) => JsonModel::Integer(n as int),
        None => JsonModel::Fraction(number),
    }
}

/// The tree of a JSON value.
pub open spec fn json_model(json: Json) -> JsonModel
    decreases json,
{
    match json {
        Json::Null => JsonModel::Null,
        Json::Bool(b) => JsonModel::Bool(b),
        Json::Unsigned(n) => JsonModel::Integer(n as int),
        Json::Signed(n) => JsonModel::Integer(n as int),
        Json::Number(n) => number_model(n),
        Json::Text(text) => JsonModel::Text(text@),
        Json::Array(items) => JsonModel::Array(items_model(items@)),
        Json::Object(object) => JsonModel::Object(object_model(object)),
    }
}

/// The trees of the items of an array, in order.
pub open spec fn items_model(items: Seq<Json>) -> Seq<JsonModel>
    decreases items,
{
    if items.len() == 0 {
        seq![]
    } else {
        items_model(items.drop_last()).push(json_model(items.last()))
    }
}

/// The trees of the values of an object, by key.
pub open spec fn object_model(object: JsonObject) -> Map<Seq<char>, JsonModel>
    decreases object,
{
    entries_model(object.entries@)
}

/// The map that a list of entries builds up, a later entry replacing an earlier one.
pub open spec fn entries_model(entries: Seq<(String, Json)>) -> Map<Seq<char>, JsonModel>
    decreases entries,
{
    if entries.len() == 0 {
        Map::empty()
    } else {
        entries_model(entries.drop_last()).insert(
            entries.last().0@,
            json_model(entries.last().1),
        )
    }
}

impl View for Json {
    type V = JsonModel;

    open spec fn view(&self) -> JsonModel {
        json_model(*self)
    }
}

impl DeepView for Json {
    type V = JsonModel;

    open spec fn deep_view(&self) -> JsonModel {
        json_model(*self)
    }
}

impl View for JsonObject {
    type V = Map<Seq<char>, JsonModel>;

    open spec fn view(&self) -> Map<Seq<char>, JsonModel> {
        object_model(*self)
    }
}

/// The tree of an array has the tree of each item in its place.
pub proof fn lemma_items_model(items: Seq<Json>)
    ensures
        items_model(items).len() == items.len(),
        forall|i: int|
            0 <= i < items.len() ==> #[trigger] items_model(items)[i] == json_model(items[i]),
    decreases items.len(),
{
    if items.len() > 0 {
        lemma_items_model(items.drop_last());
    }
}

/// A key that no entry has is not in the map.
proof fn lemma_absent_key(entries: Seq<(String, Json)>, key: Seq<char>)
    requires
        forall|i: int| 0 <= i < entries.len() ==> (#[trigger] entries[i]).0@ != key,
    ensures
        !entries_model(entries).contains_key(key),
    decreases entries.len(),
{
    if entries.len() > 0 {
        lemma_absent_key(entries.drop_last(), key);
    }
}

/// The last entry with a key gives the value of that key.
proof fn lemma_last_entry(entries: Seq<(String, Json)>, key: Seq<char>, at: int)
    requires
        0 <= at < entries.len(),
        entries[at].0@ == key,
        forall|i: int| at < i < entries.len() ==> (#[trigger] entries[i]).0@ != key,
    ensures
        entries_model(entries).contains_key(key),
        entries_model(entries)[key] == json_model(entries[at].1),
    decreases entries.len(),
{
    if at < entries.len() - 1 {
        assert(entries.last() == entries[entries.len() - 1]);
        lemma_last_entry(entries.drop_last(), key, at);
    }
}

/// Taking an entry out changes the map at the key of that entry only.
proof fn lemma_remove_entry(entries: Seq<(String, Json)>, key: Seq<char>, at: int)
    requires
        0 <= at < entries.len(),
        entries[at].0@ == key,
    ensures
        entries_model(entries.remove(at)).remove(key) == entries_model(entries).remove(key),
    decreases entries.len(),
{
    let shorter = entries.remove(at);
    if at == entries.len() - 1 {
        assert(shorter =~= entries.drop_last());
        assert(entries_model(shorter).remove(key) =~= entries_model(entries).remove(key));
    } else {
        let last = entries.last();
        let a = entries_model(shorter.drop_last());
        let b = entries_model(entries.drop_last());
        assert(shorter.drop_last() =~= entries.drop_last().remove(at));
        assert(shorter.last() == last);
        lemma_remove_entry(entries.drop_last(), key, at);
        assert(a.remove(key) == b.remove(key));
        assert(a.insert(last.0@, json_model(last.1)).remove(key) =~= a.remove(key).insert(
            last.0@,
            json_model(last.1),
        ).remove(key));
        assert(b.insert(last.0@, json_model(last.1)).remove(key) =~= b.remove(key).insert(
            last.0@,
            json_model(last.1),
        ).remove(key));
    }
}

impl JsonObject {
    /// An object without entries.
    pub fn new() -> (object: JsonObject)
        ensures
            object@ == Map::<Seq<char>, JsonModel>::empty(),
    {
        JsonObject { entries: Vec::new() }
    }

    /// Whether the object has no entries.
    pub fn is_empty(&self) -> (empty: bool)
        ensures
            empty == (self@ == Map::<Seq<char>, JsonModel>::empty()),
    {
        let empty = self.entries.len() == 0;
        proof {
            if !empty {
                assert(self@.contains_key(self.entries@.last().0@));
            }
        }
        empty
    }

    /// The position of the last entry with a key.
    fn position(&self, key: &str) -> (found: Option<usize>)
        ensures
            match found {
                Some(at) => at < self.entries@.len() && self.entries@[at as int].0@ == key@
                    && forall|i: int|
                    at < i < self.entries@.len() ==> (#[trigger] self.entries@[i]).0@ != key@,
                None => forall|i: int|
                    0 <= i < self.entries@.len() ==> (#[trigger] self.entries@[i]).0@ != key@,
            },
    {
        let mut at: usize = self.entries.len();
        while at > 0
            invariant
                at <= self.entries@.len(),
                forall|i: int|
                    at <= i < self.entries@.len() ==> (#[trigger] self.entries@[i]).0@ != key@,
            decreases at,
        {
            at = at - 1;
            if same_text(self.entries[at].0.as_str(), key) {
                return Some(at);
            }
        }
        None
    }

    /// The value of a key.
    pub fn get(&self, key: &str) -> (value: Option<&Json>)
        ensures
            match value {
                Some(json) => self@.contains_key(key@) && json@ == self@[key@],
                None => !self@.contains_key(key@),
            },
    {
        match self.position(key) {
            Some(at) => {
                proof {
                    lemma_last_entry(self.entries@, key@, at as int);
                }
                Some(&self.entries[at].1)
            },
            None => {
                proof {
                    lemma_absent_key(self.entries@, key@);
                }
                None
            },
        }
    }

    /// Takes the value of a key out of the object.
    pub fn remove(&mut self, key: &str) -> (value: Option<Json>)
        ensures
            final(self)@ == old(self)@.remove(key@),
            match value {
                Some(json) => old(self)@.contains_key(key@) && json@ == old(self)@[key@],
                None => !old(self)@.contains_key(key@),
            },
    {
        let ghost before = self@;
        let mut value: Option<Json> = None;
        let mut searching = true;
        while searching
            invariant
                self@.remove(key@) == before.remove(key@),
                value is None ==> self@ == before,
                value matches Some(json) ==> before.contains_key(key@) && json@ == before[key@],
                !searching ==> !self@.contains_key(key@),
            decreases self.entries@.len() + if searching { 1int } else { 0int },
        {
            match self.position(key) {
                Some(at) => {
                    proof {
                        lemma_last_entry(self.entries@, key@, at as int);
                        lemma_remove_entry(self.entries@, key@, at as int);
                    }
                    let entry = self.entries.remove(at);
                    if value.is_none() {
                        value = Some(entry.1);
                    }
                },
                None => {
                    proof {
                        lemma_absent_key(self.entries@, key@);
                    }
                    searching = false;
                },
            }
        }
        assert(self@.remove(key@) =~= self@);
        value
    }

    /// Sets the value of a key.
    pub fn insert(&mut self, key: String, value: Json)
        ensures
            final(self)@ == old(self)@.insert(key@, value@),
    {
        self.remove(key.as_str());
        let ghost before = self.entries@;
        self.entries.push((key, value));
        proof {
            assert(self.entries@.drop_last() =~= before);
            assert(self@ =~= old(self)@.insert(key@, value@));
        }
    }
}

} // verus!

//! JSON documents as plain values, with the reads that the library makes of them.

use crate::text;
use serde_json::Value;
use vstd::prelude::*;

verus! {

/// A JSON number.
#[derive(Debug, PartialEq)]
pub enum Number {
    /// An integer from zero up.
    Unsigned(u64),
    /// An integer below zero.
    Negative(i64),
    /// Any other number, by its text.
    Other(String),
}

/// A JSON document.
///
/// Where an object lists a key twice, the later entry counts.
#[derive(Debug, PartialEq)]
pub enum Json {
    Null,
    Bool(bool),
    Number(Number),
    Str(String),
    Array(Vec<Json>),
    Object(Vec<(String, Json)>),
}

/// The model of a [`Number`].
pub enum NumberView {
    Unsigned(u64),
    Negative(i64),
    Other(Seq<char>),
}

/// The model of a [`Json`] document: an object is a map from its keys to its values.
pub enum JsonView {
    Null,
    Bool(bool),
    Number(NumberView),
    Str(Seq<char>),
    Array(Seq<JsonView>),
    Object(Map<Seq<char>, JsonView>),
}

impl View for Number {
    type V = NumberView;

    open spec fn view(&self) -> NumberView {
        match self {
            Number::Unsigned(n) => NumberView::Unsigned(*n),
            Number::Negative(n) => NumberView::Negative(*n),
            Number::Other(text) => NumberView::Other(text@),
        }
    }
}

impl View for Json {
    type V = JsonView;

    open spec fn view(&self) -> JsonView {
        json_view(*self)
    }
}

/// The model of one document.
pub open spec fn json_view(j: Json) -> JsonView
    decreases j,
{
    match j {
        Json::Null => JsonView::Null,
        Json::Bool(b) => JsonView::Bool(b),
        Json::Number(n) => JsonView::Number(n@),
        Json::Str(s) => JsonView::Str(s@),
        Json::Array(items) => JsonView::Array(array_view(items@)),
        Json::Object(entries) => JsonView::Object(object_view(entries@)),
    }
}

/// The models of the items of an array.
pub open spec fn array_view(items: Seq<Json>) -> Seq<JsonView>
    decreases items,
{
    if items.len() == 0 {
        Seq::empty()
    } else {
        array_view(items.drop_last()).push(json_view(items.last()))
    }
}

/// The map that the entries of an object make.
pub open spec fn object_view(entries: Seq<(String, Json)>) -> Map<Seq<char>, JsonView>
    decreases entries,
{
    if entries.len() == 0 {
        Map::empty()
    } else {
        object_view(entries.drop_last()).insert(entries.last().0@, json_view(entries.last().1))
    }
}

/// The value that an object holds under `key`.
pub open spec fn member(j: JsonView, key: Seq<char>) -> Option<JsonView> {
    match j {
        JsonView::Object(entries) => if entries.contains_key(key) {
            Some(entries[key])
        } else {
            None
        },
        _ => None,
    }
}

/// The number of a document, where it is one within the range of `i64`.
pub open spec fn integer(j: JsonView) -> Option<i64> {
    match j {
        JsonView::Number(NumberView::Unsigned(n)) => if n <= i64::MAX {
            Some(n as i64)
        } else {
            None
        },
        JsonView::Number(NumberView::Negative(n)) => Some(n),
        _ => None,
    }
}

/// The number of a document, where it is an integer from zero up.
pub open spec fn unsigned(j: JsonView) -> Option<u64> {
    match j {
        JsonView::Number(NumberView::Unsigned(n)) => Some(n),
        _ => None,
    }
}

/// The characters of a document, where it is a string.
pub open spec fn string(j: JsonView) -> Option<Seq<char>> {
    match j {
        JsonView::Str(s) => Some(s),
        _ => None,
    }
}

/// The items of a document, where it is an array.
pub open spec fn items(j: JsonView) -> Option<Seq<JsonView>> {
    match j {
        JsonView::Array(s) => Some(s),
        _ => None,
    }
}

/// The integer that an object holds under `key`.
pub open spec fn integer_at(j: JsonView, key: Seq<char>) -> Option<i64> {
    match member(j, key) {
        Some(v) => integer(v),
        None => None,
    }
}

/// The unsigned integer that an object holds under `key`.
pub open spec fn unsigned_at(j: JsonView, key: Seq<char>) -> Option<u64> {
    match member(j, key) {
        Some(v) => unsigned(v),
        None => None,
    }
}

/// The string that an object holds under `key`.
pub open spec fn string_at(j: JsonView, key: Seq<char>) -> Option<Seq<char>> {
    match member(j, key) {
        Some(v) => string(v),
        None => None,
    }
}

/// The array that an object holds under `key`.
pub open spec fn items_at(j: JsonView, key: Seq<char>) -> Option<Seq<JsonView>> {
    match member(j, key) {
        Some(v) => items(v),
        None => None,
    }
}

/// The number that stands for the integer `n`. One that is too large or too small for the
/// machine is given by its numeral.
pub open spec fn number(n: int) -> JsonView {
    if 0 <= n <= u64::MAX {
        JsonView::Number(NumberView::Unsigned(n as u64))
    } else if i64::MIN <= n < 0 {
        JsonView::Number(NumberView::Negative(n as i64))
    } else {
        JsonView::Number(NumberView::Other(text::decimal(n)))
    }
}

/// The compact text that `serde_json` writes for a document.
pub uninterp spec fn json_text(j: JsonView) -> Seq<char>;

/// The model of an array holds the models of its items, in their order.
pub proof fn lemma_array_view(items: Seq<Json>)
    ensures
        array_view(items).len() == items.len(),
        forall|i: int| 0 <= i < items.len() ==> #[trigger] array_view(items)[i] == items[i]@,
    decreases items.len(),
{
    if items.len() > 0 {
        lemma_array_view(items.drop_last());
    }
}

/// Adding an item to an array adds its model.
pub proof fn lemma_array_push(items: Seq<Json>, item: Json)
    ensures
        array_view(items.push(item)) == array_view(items).push(item@),
{
    assert(items.push(item).drop_last() =~= items);
}

/// Putting one array behind another puts the models of its items there.
pub proof fn lemma_array_append(first: Seq<Json>, second: Seq<Json>)
    ensures
        array_view(first + second) == array_view(first) + array_view(second),
{
    lemma_array_view(first);
    lemma_array_view(second);
    lemma_array_view(first + second);
    assert(array_view(first + second) =~= array_view(first) + array_view(second));
}

/// Adding an entry to an object adds its value under its key.
proof fn lemma_object_push(entries: Seq<(String, Json)>, entry: (String, Json))
    ensures
        object_view(entries.push(entry)) == object_view(entries).insert(entry.0@, entry.1@),
{
    assert(entries.push(entry).drop_last() =~= entries);
}

impl Json {
    /// The value that an object holds under `key`.
    pub fn get(&self, key: &str) -> (r: Option<&Json>)
        ensures
            match r {
                Some(v) => member(self@, key@) == Some(v@),
                None => member(self@, key@) is None,
            },
    {
        match self {
            Json::Object(entries) => {
                let mut n: usize = entries.len();
                assert(entries@.take(n as int) =~= entries@);
                while n > 0
                    invariant
                        n <= entries.len(),
                        self@ == JsonView::Object(object_view(entries@)),
                        object_view(entries@).contains_key(key@) == object_view(
                            entries@.take(n as int),
                        ).contains_key(key@),
                        object_view(entries@)[key@] == object_view(entries@.take(n as int))[key@],
                    decreases n,
                {
                    let entry = &entries[n - 1];
                    assert(entries@.take(n as int).drop_last() =~= entries@.take(n - 1));
                    if text::same(entry.0.as_str(), key) {
                        return Some(&entry.1);
                    }
                    n = n - 1;
                }
                None
            },
            _ => None,
        }
    }

    /// The number of this document, where it is one within the range of `i64`.
    pub fn as_i64(&self) -> (r: Option<i64>)
        ensures
            r == integer(self@),
    {
        match self {
            Json::Number(Number::Unsigned(n)) => if *n <= 0x7fff_ffff_ffff_ffff {
                Some(*n as i64)
            } else {
                None
            },
            Json::Number(Number::Negative(n)) => Some(*n),
            _ => None,
        }
    }

    /// The number of this document, where it is an integer from zero up.
    pub fn as_u64(&self) -> (r: Option<u64>)
        ensures
            r == unsigned(self@),
    {
        match self {
            Json::Number(Number::Unsigned(n)) => Some(*n),
            _ => None,
        }
    }

    /// The characters of this document, where it is a string.
    pub fn as_str(&self) -> (r: Option<&str>)
        ensures
            match r {
                Some(s) => string(self@) == Some(s@),
                None => string(self@) is None,
            },
    {
        match self {
            Json::Str(s) => Some(s.as_str()),
            _ => None,
        }
    }

    /// The items of this document, where it is an array.
    pub fn as_array(&self) -> (r: Option<&Vec<Json>>)
        ensures
            match r {
                Some(v) => items(self@) == Some(array_view(v@)),
                None => items(self@) is None,
            },
    {
        match self {
            Json::Array(v) => Some(v),
            _ => None,
        }
    }

    /// Whether this document is `null`.
    pub fn is_null(&self) -> (r: bool)
        ensures
            r == (self@ == JsonView::Null),
    {
        match self {
            Json::Null => true,
            _ => false,
        }
    }

    /// The integer that an object holds under `key`.
    pub fn get_i64(&self, key: &str) -> (r: Option<i64>)
        ensures
            r == integer_at(self@, key@),
    {
        match self.get(key) {
            Some(v) => v.as_i64(),
            None => None,
        }
    }

    /// The unsigned integer that an object holds under `key`.
    pub fn get_u64(&self, key: &str) -> (r: Option<u64>)
        ensures
            r == unsigned_at(self@, key@),
    {
        match self.get(key) {
            Some(v) => v.as_u64(),
            None => None,
        }
    }

    /// The string that an object holds under `key`.
    pub fn get_str(&self, key: &str) -> (r: Option<&str>)
        ensures
            match r {
                Some(s) => string_at(self@, key@) == Some(s@),
                None => string_at(self@, key@) is None,
            },
    {
        match self.get(key) {
            Some(v) => v.as_str(),
            None => None,
        }
    }

    /// The array that an object holds under `key`.
    pub fn get_array(&self, key: &str) -> (r: Option<&Vec<Json>>)
        ensures
            match r {
                Some(v) => items_at(self@, key@) == Some(array_view(v@)),
                None => items_at(self@, key@) is None,
            },
    {
        match self.get(key) {
            Some(v) => v.as_array(),
            None => None,
        }
    }

    /// The number that stands for the integer `n`.
    pub fn from_i128(n: i128) -> (r: Json)
        ensures
            r@ == number(n as int),
    {
        if 0 <= n && n <= 0xffff_ffff_ffff_ffff {
            Json::Number(Number::Unsigned(n as u64))
        } else if -0x8000_0000_0000_0000 <= n && n < 0 {
            Json::Number(Number::Negative(n as i64))
        } else {
            Json::Number(Number::Other(text::i128_text(n)))
        }
    }

    /// An object of one entry.
    pub fn object1(key: &str, value: Json) -> (r: Json)
        ensures
            r@ == JsonView::Object(Map::empty().insert(key@, value@)),
    {
        let mut entries: Vec<(String, Json)> = Vec::new();
        let entry = (key.to_owned(), value);
        proof {
            lemma_object_push(entries@, entry);
        }
        entries.push(entry);
        Json::Object(entries)
    }

    /// An object of two entries.
    pub fn object2(key1: &str, value1: Json, key2: &str, value2: Json) -> (r: Json)
        ensures
            r@ == JsonView::Object(Map::empty().insert(key1@, value1@).insert(key2@, value2@)),
    {
        let mut entries: Vec<(String, Json)> = Vec::new();
        let entry1 = (key1.to_owned(), value1);
        let entry2 = (key2.to_owned(), value2);
        proof {
            lemma_object_push(entries@, entry1);
            lemma_object_push(entries@.push(entry1), entry2);
        }
        entries.push(entry1);
        entries.push(entry2);
        Json::Object(entries)
    }
}

/// A document whose parts are `serde_json` values already.
enum Layer {
    Null,
    Bool(bool),
    Unsigned(u64),
    Negative(i64),
    Other(String),
    Str(String),
    Array(Vec<Value>),
    Object(Vec<(String, Value)>),
}

/// Whether a `serde_json` value is the one that is made for a document. One value can be made
/// for several documents: a number can be given as an integer or by its text.
pub uninterp spec fn made_for_document(v: serde_json::Value, j: JsonView) -> bool;

/// Whether the values of some entries are made for some documents, one by one.
spec fn all_made_for(entries: Seq<(String, Value)>, items: Seq<JsonView>) -> bool {
    items.len() == entries.len() && forall|i: int|
        0 <= i < items.len() ==> made_for_document(entries[i].1, #[trigger] items[i])
}

/// The map from the keys of some entries to documents, a later one counting where a key is
/// listed twice.
spec fn keyed(entries: Seq<(String, Value)>, items: Seq<JsonView>) -> Map<Seq<char>, JsonView>
    decreases entries.len(),
{
    if entries.len() == 0 {
        Map::empty()
    } else {
        keyed(entries.drop_last(), items).insert(entries.last().0@, items[entries.len() - 1])
    }
}

/// Whether some entries are those of an object: their values are made for what it holds.
spec fn are_entries_of(entries: Seq<(String, Value)>, object: Map<Seq<char>, JsonView>) -> bool {
    exists|items: Seq<JsonView>| #[trigger]
        all_made_for(entries, items) && object == keyed(entries, items)
}

/// Whether a layer is that of a document: its parts are made for the parts of the document.
spec fn is_layer_of(l: Layer, j: JsonView) -> bool {
    match l {
        Layer::Null => j == JsonView::Null,
        Layer::Bool(b) => j == JsonView::Bool(b),
        Layer::Unsigned(n) => j == JsonView::Number(NumberView::Unsigned(n)),
        Layer::Negative(n) => j == JsonView::Number(NumberView::Negative(n)),
        Layer::Other(s) => j == JsonView::Number(NumberView::Other(s@)),
        Layer::Str(s) => j == JsonView::Str(s@),
        Layer::Array(values) => match j {
            JsonView::Array(items) => items.len() == values@.len() && forall|i: int|
                0 <= i < items.len() ==> made_for_document(values@[i], #[trigger] items[i]),
            _ => false,
        },
        Layer::Object(entries) => match j {
            JsonView::Object(object) => are_entries_of(entries@, object),
            _ => false,
        },
    }
}

/// The `serde_json` value.
#[verifier::external_type_specification]
#[verifier::external_body]
pub struct ExSerdeValue(serde_json::Value);

/// Makes the `serde_json::Value` of one layer, which is then the one for each document that the
/// layer is of. Under a key that is listed twice, the later entry counts. A text that
/// `serde_json` does not read as a number becomes null.
#[verifier::external_body]
fn make_value(l: Layer) -> (v: serde_json::Value)
    ensures
        forall|j: JsonView| is_layer_of(l, j) ==> #[trigger] made_for_document(v, j),
{
    match l {
        Layer::Null => Value::Null,
        Layer::Bool(b) => Value::from(b),
        Layer::Unsigned(n) => Value::from(n),
        Layer::Negative(n) => Value::from(n),
        Layer::Other(s) => s.parse().map_or(Value::Null, Value::Number),
        Layer::Str(s) => Value::from(s),
        Layer::Array(items) => Value::from(items),
        Layer::Object(entries) => entries.into_iter().collect(),
    }
}

/// Writes a `serde_json::Value` with its `Display`. The text depends on the content of the
/// document that the value is made for alone: `serde_json` keeps the keys of an object sorted.
#[verifier::external_body]
fn value_text(v: &serde_json::Value) -> (r: String)
    ensures
        forall|j: JsonView| #[trigger] made_for_document(*v, j) ==> r@ == json_text(j),
{
    v.to_string()
}

/// Makes the `serde_json` value for a document.
fn to_value(j: &Json) -> (v: Value)
    ensures
        made_for_document(v, j@),
    decreases j,
{
    let layer = match j {
        Json::Null => Layer::Null,
        Json::Bool(b) => Layer::Bool(*b),
        Json::Number(Number::Unsigned(n)) => Layer::Unsigned(*n),
        Json::Number(Number::Negative(n)) => Layer::Negative(*n),
        Json::Number(Number::Other(s)) => Layer::Other(s.clone()),
        Json::Str(s) => Layer::Str(s.clone()),
        Json::Array(items) => {
            let mut values: Vec<Value> = Vec::new();
            let mut i: usize = 0;
            while i < items.len()
                invariant
                    i <= items.len(),
                    *j == Json::Array(*items),
                    values.len() == i,
                    forall|k: int|
                        0 <= k < i ==> made_for_document(#[trigger] values[k], items[k]@),
                decreases items.len() - i,
            {
                assert(decreases_to!(j => j->Array_0));
                assert(decreases_to!(items@ => items@[i as int]));
                values.push(to_value(&items[i]));
                i = i + 1;
            }
            proof {
                lemma_array_view(items@);
                assert(is_layer_of(Layer::Array(values), j@));
            }
            Layer::Array(values)
        },
        Json::Object(entries) => {
            let mut values: Vec<(String, Value)> = Vec::new();
            let ghost items = Seq::new(entries@.len(), |k: int| entries@[k].1@);
            let mut i: usize = 0;
            assert(entries@.take(0) =~= Seq::empty());
            while i < entries.len()
                invariant
                    i <= entries.len(),
                    *j == Json::Object(*entries),
                    items == Seq::new(entries@.len(), |k: int| entries@[k].1@),
                    values.len() == i,
                    forall|k: int|
                        0 <= k < i ==> made_for_document(values[k].1, #[trigger] items[k]),
                    keyed(values@, items) == object_view(entries@.take(i as int)),
                decreases entries.len() - i,
            {
                assert(decreases_to!(j => j->Object_0));
                assert(decreases_to!(entries@ => entries@[i as int]));
                assert(decreases_to!(entries@[i as int] => entries@[i as int].1));
                let entry = (entries[i].0.clone(), to_value(&entries[i].1));
                proof {
                    assert(values@.push(entry).drop_last() =~= values@);
                    assert(entries@.take(i + 1).drop_last() =~= entries@.take(i as int));
                }
                values.push(entry);
                i = i + 1;
            }
            proof {
                assert(entries@.take(i as int) =~= entries@);
                assert(all_made_for(values@, items));
                assert(are_entries_of(values@, object_view(entries@)));
                assert(is_layer_of(Layer::Object(values), j@));
            }
            Layer::Object(values)
        },
    };
    make_value(layer)
}

/// Writes a document as compact text.
pub fn write_json(j: &Json) -> (r: String)
    ensures
        r@ == json_text(j@),
{
    value_text(&to_value(j))
}

} // verus!

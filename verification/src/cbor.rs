//! CBOR items as plain values, read and written with `ciborium`.

use ciborium::value::{Integer, Value};
use vstd::prelude::*;

verus! {

/// A CBOR item.
#[derive(Debug, PartialEq)]
pub enum Cbor {
    Integer(i128),
    Bytes(Vec<u8>),
    /// A floating point number, by its text.
    Float(String),
    Text(String),
    Bool(bool),
    Null,
    Tag(u64, Box<Cbor>),
    Array(Vec<Cbor>),
    Entries(Vec<(Cbor, Cbor)>),
}

/// The model of a [`Cbor`] item.
pub enum CborView {
    Integer(i128),
    Bytes(Seq<u8>),
    Float(Seq<char>),
    Text(Seq<char>),
    Bool(bool),
    Null,
    Tag(u64, Box<CborView>),
    Array(Seq<CborView>),
    Entries(Seq<(CborView, CborView)>),
}

impl View for Cbor {
    type V = CborView;

    open spec fn view(&self) -> CborView {
        cbor_view(*self)
    }
}

/// The model of one item.
pub open spec fn cbor_view(c: Cbor) -> CborView
    decreases c,
{
    match c {
        Cbor::Integer(n) => CborView::Integer(n),
        Cbor::Bytes(b) => CborView::Bytes(b@),
        Cbor::Float(s) => CborView::Float(s@),
        Cbor::Text(s) => CborView::Text(s@),
        Cbor::Bool(b) => CborView::Bool(b),
        Cbor::Null => CborView::Null,
        Cbor::Tag(tag, inner) => CborView::Tag(tag, Box::new(cbor_view(*inner))),
        Cbor::Array(items) => CborView::Array(items_view(items@)),
        Cbor::Entries(entries) => CborView::Entries(entries_view(entries@)),
    }
}

/// The models of the items of an array.
pub open spec fn items_view(items: Seq<Cbor>) -> Seq<CborView>
    decreases items,
{
    if items.len() == 0 {
        Seq::empty()
    } else {
        items_view(items.drop_last()).push(cbor_view(items.last()))
    }
}

/// The models of the entries of a map.
pub open spec fn entries_view(entries: Seq<(Cbor, Cbor)>) -> Seq<(CborView, CborView)>
    decreases entries,
{
    if entries.len() == 0 {
        Seq::empty()
    } else {
        entries_view(entries.drop_last()).push(
            (cbor_view(entries.last().0), cbor_view(entries.last().1)),
        )
    }
}

/// The model of an array holds the models of its items, in their order.
pub proof fn lemma_items_view(items: Seq<Cbor>)
    ensures
        items_view(items).len() == items.len(),
        forall|i: int| 0 <= i < items.len() ==> #[trigger] items_view(items)[i] == items[i]@,
    decreases items.len(),
{
    if items.len() > 0 {
        lemma_items_view(items.drop_last());
    }
}

/// Adding an item to an array adds its model.
pub proof fn lemma_items_push(items: Seq<Cbor>, item: Cbor)
    ensures
        items_view(items.push(item)) == items_view(items).push(item@),
{
    assert(items.push(item).drop_last() =~= items);
}

/// Whether an item is made of integers within the range of `i64` or `u64`, byte strings,
/// arrays and tags above those of big numbers.
pub open spec fn is_plain(c: CborView) -> bool
    decreases c,
{
    match c {
        CborView::Integer(n) => i64::MIN <= n <= u64::MAX,
        CborView::Bytes(_) => true,
        CborView::Array(items) => are_plain(items),
        CborView::Tag(tag, inner) => tag > 3 && is_plain(*inner),
        _ => false,
    }
}

/// Whether each of some items is plain.
pub open spec fn are_plain(items: Seq<CborView>) -> bool
    decreases items,
{
    items.len() == 0 || (are_plain(items.drop_last()) && is_plain(items.last()))
}

/// How many arrays and tags stand around the innermost part of an item.
pub open spec fn depth(c: CborView) -> nat
    decreases c,
{
    match c {
        CborView::Array(items) => 1 + items_depth(items),
        CborView::Tag(_, inner) => 1 + depth(*inner),
        _ => 0,
    }
}

/// The largest depth of some items.
pub open spec fn items_depth(items: Seq<CborView>) -> nat
    decreases items,
{
    if items.len() == 0 {
        0
    } else {
        let before = items_depth(items.drop_last());
        let last = depth(items.last());
        if last > before {
            last
        } else {
            before
        }
    }
}

/// The deepest nesting that `ciborium` reads.
pub const MAX_DEPTH: u64 = 256;

/// The item that `ciborium` reads from `bytes`, or what it says where it reads none.
pub uninterp spec fn decoded_cbor(bytes: Seq<u8>) -> Result<CborView, Seq<char>>;

/// Whether `ciborium` reads the item `c` from `bytes`.
pub open spec fn reads_as(bytes: Seq<u8>, c: CborView) -> bool {
    decoded_cbor(bytes) == Ok::<CborView, Seq<char>>(c)
}

/// The bytes that `ciborium` writes for an item.
pub uninterp spec fn encoded_cbor(c: CborView) -> Seq<u8>;

/// The text that `ciborium` prints of an item for debugging.
pub uninterp spec fn debug_cbor(c: CborView) -> Seq<char>;

/// The value that `ciborium` reads and writes.
#[verifier::external_type_specification]
#[verifier::external_body]
pub struct ExCborValue(ciborium::value::Value);

/// Whether a value is the one that is made for an item. One value can be made for several
/// items: a floating point number has many texts.
pub uninterp spec fn made_for_item(v: ciborium::value::Value, c: CborView) -> bool;

/// The item that is found in a value.
pub uninterp spec fn found_cbor(v: ciborium::value::Value) -> CborView;

/// An item whose parts are `ciborium` values already, to make a value of.
enum Layer {
    Integer(i128),
    Bytes(Vec<u8>),
    Float(String),
    Text(String),
    Bool(bool),
    Null,
    Tag(u64, Value),
    Array(Vec<Value>),
    Entries(Vec<(Value, Value)>),
}

/// An item whose parts are `ciborium` values still, as it is found in a value.
enum Found<'a> {
    Integer(i128),
    Bytes(&'a Vec<u8>),
    Float(String),
    Text(&'a String),
    Bool(bool),
    Null,
    Tag(u64, &'a Value),
    Array(&'a Vec<Value>),
    Entries(&'a Vec<(Value, Value)>),
}

/// Whether a layer is that of an item: its parts are made for the parts of the item.
spec fn is_layer_of(l: Layer, c: CborView) -> bool {
    match l {
        Layer::Integer(n) => c == CborView::Integer(n),
        Layer::Bytes(b) => c == CborView::Bytes(b@),
        Layer::Float(s) => c == CborView::Float(s@),
        Layer::Text(s) => c == CborView::Text(s@),
        Layer::Bool(b) => c == CborView::Bool(b),
        Layer::Null => c == CborView::Null,
        Layer::Tag(tag, v) => match c {
            CborView::Tag(n, inner) => n == tag && made_for_item(v, *inner),
            _ => false,
        },
        Layer::Array(values) => match c {
            CborView::Array(items) => items.len() == values@.len() && forall|i: int|
                0 <= i < items.len() ==> made_for_item(values@[i], #[trigger] items[i]),
            _ => false,
        },
        Layer::Entries(values) => match c {
            CborView::Entries(entries) => entries.len() == values@.len() && forall|i: int|
                0 <= i < entries.len() ==> made_for_item(values@[i].0, (#[trigger] entries[i]).0)
                    && made_for_item(values@[i].1, entries[i].1),
            _ => false,
        },
    }
}

/// The item that was found.
spec fn found_view(f: Found<'_>) -> CborView {
    match f {
        Found::Integer(n) => CborView::Integer(n),
        Found::Bytes(b) => CborView::Bytes(b@),
        Found::Float(s) => CborView::Float(s@),
        Found::Text(s) => CborView::Text(s@),
        Found::Bool(b) => CborView::Bool(b),
        Found::Null => CborView::Null,
        Found::Tag(tag, v) => CborView::Tag(tag, Box::new(found_cbor(*v))),
        Found::Array(items) => CborView::Array(
            Seq::new(items@.len(), |i: int| found_cbor(items@[i])),
        ),
        Found::Entries(entries) => CborView::Entries(
            Seq::new(
                entries@.len(),
                |i: int| (found_cbor(entries@[i].0), found_cbor(entries@[i].1)),
            ),
        ),
    }
}

/// Makes the `ciborium::value::Value` of one layer, which is then the one for each item that
/// the layer is of. An integer that CBOR does not hold without a big number becomes null, and
/// a text that is no number becomes zero.
#[verifier::external_body]
fn make_value(l: Layer) -> (v: ciborium::value::Value)
    ensures
        forall|c: CborView| is_layer_of(l, c) ==> #[trigger] made_for_item(v, c),
{
    match l {
        Layer::Integer(n) => Integer::try_from(n).map_or(Value::Null, Value::Integer),
        Layer::Bytes(b) => Value::Bytes(b),
        Layer::Float(s) => Value::Float(s.parse().unwrap_or_default()),
        Layer::Text(s) => Value::Text(s),
        Layer::Bool(b) => Value::Bool(b),
        Layer::Null => Value::Null,
        Layer::Tag(tag, v) => Value::Tag(tag, v.into()),
        Layer::Array(items) => Value::Array(items),
        Layer::Entries(entries) => Value::Map(entries),
    }
}

/// Looks into a `ciborium::value::Value`, one layer deep. A floating point number is given by
/// the text that `Debug` prints of it.
#[verifier::external_body]
fn look_into(v: &ciborium::value::Value) -> (f: Found<'_>)
    ensures
        found_view(f) == found_cbor(*v),
{
    match v {
        Value::Integer(n) => Found::Integer((*n).into()),
        Value::Bytes(b) => Found::Bytes(b),
        Value::Float(x) => Found::Float(format!("{:?}", x)),
        Value::Text(s) => Found::Text(s),
        Value::Bool(b) => Found::Bool(*b),
        Value::Tag(tag, v) => Found::Tag(*tag, v),
        Value::Array(items) => Found::Array(items),
        Value::Map(entries) => Found::Entries(entries),
        _ => Found::Null,
    }
}

/// Reads a value with `ciborium::de::from_reader`. What it reads, and what it says where it
/// fails, depends on the bytes alone.
#[verifier::external_body]
fn read_value(bytes: &[u8]) -> (r: Result<ciborium::value::Value, String>)
    ensures
        match r {
            Ok(v) => decoded_cbor(bytes@) == Ok::<CborView, Seq<char>>(found_cbor(v)),
            Err(e) => decoded_cbor(bytes@) == Err::<CborView, Seq<char>>(e@),
        },
{
    ciborium::de::from_reader(bytes).map_err(
        |e: ciborium::de::Error<std::io::Error>| e.to_string())
}

/// Writes a value with `ciborium::ser::into_writer`; writing to a vector does not fail. The
/// bytes depend on the item that the value is made for. `ciborium::de::from_reader` reads a
/// plain item back as it was, unless it is nested more deeply than the reader's limit.
#[verifier::external_body]
fn write_value(v: &ciborium::value::Value) -> (r: Vec<u8>)
    ensures
        forall|c: CborView| #[trigger] made_for_item(*v, c) ==> r@ == encoded_cbor(c),
        forall|c: CborView| #[trigger]
            made_for_item(*v, c) && is_plain(c) && depth(c) <= MAX_DEPTH ==> reads_as(r@, c),
{
    let mut bytes = Vec::new();
    let _ = ciborium::ser::into_writer(v, &mut bytes);
    bytes
}

/// Prints a value with the `Debug` of `ciborium::value::Value`.
#[verifier::external_body]
fn print_value(v: &ciborium::value::Value) -> (r: String)
    ensures
        forall|c: CborView| #[trigger] made_for_item(*v, c) ==> r@ == debug_cbor(c),
{
    format!("{:?}", v)
}

/// Copies bytes.
fn copy_bytes(bytes: &Vec<u8>) -> (r: Vec<u8>)
    ensures
        r@ == bytes@,
{
    let mut r: Vec<u8> = Vec::new();
    let mut i: usize = 0;
    while i < bytes.len()
        invariant
            i <= bytes.len(),
            r@ == bytes@.take(i as int),
        decreases bytes.len() - i,
    {
        r.push(bytes[i]);
        i = i + 1;
    }
    assert(r@ =~= bytes@);
    r
}

/// The entries of a map hold the models of its keys and values, in their order.
proof fn lemma_entries_view(entries: Seq<(Cbor, Cbor)>)
    ensures
        entries_view(entries).len() == entries.len(),
        forall|i: int|
            0 <= i < entries.len() ==> #[trigger] entries_view(entries)[i] == (
                entries[i].0@,
                entries[i].1@,
            ),
    decreases entries.len(),
{
    if entries.len() > 0 {
        lemma_entries_view(entries.drop_last());
    }
}

/// Makes the `ciborium` value for an item.
fn to_value(c: &Cbor) -> (v: Value)
    ensures
        made_for_item(v, c@),
    decreases c,
{
    let layer = match c {
        Cbor::Integer(n) => Layer::Integer(*n),
        Cbor::Bytes(b) => Layer::Bytes(copy_bytes(b)),
        Cbor::Float(s) => Layer::Float(s.clone()),
        Cbor::Text(s) => Layer::Text(s.clone()),
        Cbor::Bool(b) => Layer::Bool(*b),
        Cbor::Null => Layer::Null,
        Cbor::Tag(tag, inner) => Layer::Tag(*tag, to_value(inner)),
        Cbor::Array(items) => {
            let mut values: Vec<Value> = Vec::new();
            let mut i: usize = 0;
            while i < items.len()
                invariant
                    i <= items.len(),
                    *c == Cbor::Array(*items),
                    values.len() == i,
                    forall|k: int| 0 <= k < i ==> made_for_item(#[trigger] values[k], items[k]@),
                decreases items.len() - i,
            {
                assert(decreases_to!(c => c->Array_0));
                assert(decreases_to!(items@ => items@[i as int]));
                values.push(to_value(&items[i]));
                i = i + 1;
            }
            proof {
                lemma_items_view(items@);
                assert(is_layer_of(Layer::Array(values), c@));
            }
            Layer::Array(values)
        },
        Cbor::Entries(entries) => {
            let mut values: Vec<(Value, Value)> = Vec::new();
            let mut i: usize = 0;
            while i < entries.len()
                invariant
                    i <= entries.len(),
                    *c == Cbor::Entries(*entries),
                    values.len() == i,
                    forall|k: int|
                        0 <= k < i ==> made_for_item((#[trigger] values[k]).0, entries[k].0@)
                            && made_for_item(values[k].1, entries[k].1@),
                decreases entries.len() - i,
            {
                assert(decreases_to!(c => c->Entries_0));
                assert(decreases_to!(entries@ => entries@[i as int]));
                assert(decreases_to!(entries@[i as int] => entries@[i as int].0));
                assert(decreases_to!(entries@[i as int] => entries@[i as int].1));
                values.push((to_value(&entries[i].0), to_value(&entries[i].1)));
                i = i + 1;
            }
            proof {
                lemma_entries_view(entries@);
                assert(is_layer_of(Layer::Entries(values), c@));
            }
            Layer::Entries(values)
        },
    };
    make_value(layer)
}

/// Copies the item out of a `ciborium` value.
fn from_value(v: &Value) -> (c: Cbor)
    ensures
        c@ == found_cbor(*v),
    decreases found_cbor(*v),
{
    let ghost view = found_cbor(*v);
    match look_into(v) {
        Found::Integer(n) => Cbor::Integer(n),
        Found::Bytes(b) => Cbor::Bytes(copy_bytes(b)),
        Found::Float(s) => Cbor::Float(s),
        Found::Text(s) => Cbor::Text(s.clone()),
        Found::Bool(b) => Cbor::Bool(b),
        Found::Null => Cbor::Null,
        Found::Tag(tag, inner) => {
            assert(decreases_to!(view => *view->Tag_1));
            Cbor::Tag(tag, Box::new(from_value(inner)))
        },
        Found::Array(values) => {
            let mut items: Vec<Cbor> = Vec::new();
            let mut i: usize = 0;
            while i < values.len()
                invariant
                    i <= values.len(),
                    items.len() == i,
                    view == found_cbor(*v),
                    view == found_view(Found::Array(values)),
                    forall|k: int| 0 <= k < i ==> (#[trigger] items[k])@ == found_cbor(values[k]),
                decreases values.len() - i,
            {
                assert(decreases_to!(view => view->Array_0));
                assert(decreases_to!(view->Array_0 => view->Array_0[i as int]));
                items.push(from_value(&values[i]));
                i = i + 1;
            }
            proof {
                lemma_items_view(items@);
                assert(items_view(items@) =~= view->Array_0);
            }
            Cbor::Array(items)
        },
        Found::Entries(values) => {
            let mut entries: Vec<(Cbor, Cbor)> = Vec::new();
            let mut i: usize = 0;
            while i < values.len()
                invariant
                    i <= values.len(),
                    entries.len() == i,
                    view == found_cbor(*v),
                    view == found_view(Found::Entries(values)),
                    forall|k: int|
                        0 <= k < i ==> (#[trigger] entries[k]).0@ == found_cbor(values[k].0)
                            && entries[k].1@ == found_cbor(values[k].1),
                decreases values.len() - i,
            {
                assert(decreases_to!(view => view->Entries_0));
                assert(decreases_to!(view->Entries_0 => view->Entries_0[i as int]));
                assert(decreases_to!(view->Entries_0[i as int] => view->Entries_0[i as int].0));
                assert(decreases_to!(view->Entries_0[i as int] => view->Entries_0[i as int].1));
                entries.push((from_value(&values[i].0), from_value(&values[i].1)));
                i = i + 1;
            }
            proof {
                lemma_entries_view(entries@);
                assert(entries_view(entries@) =~= view->Entries_0);
            }
            Cbor::Entries(entries)
        },
    }
}

/// Reads an item from bytes.
pub fn decode_cbor(bytes: &[u8]) -> (r: Result<Cbor, String>)
    ensures
        match r {
            Ok(c) => decoded_cbor(bytes@) == Ok::<CborView, Seq<char>>(c@),
            Err(e) => decoded_cbor(bytes@) == Err::<CborView, Seq<char>>(e@),
        },
{
    match read_value(bytes) {
        Ok(v) => Ok(from_value(&v)),
        Err(e) => Err(e),
    }
}

/// Writes an item as bytes. A plain item is read back from them as it was, unless it is
/// nested more deeply than the reader's limit.
pub fn encode_cbor(c: &Cbor) -> (r: Vec<u8>)
    ensures
        r@ == encoded_cbor(c@),
        is_plain(c@) && depth(c@) <= MAX_DEPTH ==> reads_as(r@, c@),
{
    write_value(&to_value(c))
}

/// Prints an item for debugging.
pub fn print_cbor(c: &Cbor) -> (r: String)
    ensures
        r@ == debug_cbor(c@),
{
    print_value(&to_value(c))
}

} // verus!

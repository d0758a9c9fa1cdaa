//! Plutus data, as JSON and as CBOR.
//!
//! In JSON an item is `{"int": 42}`, `{"bytes": "abcd"}`, `{"list": [..]}` or
//! `{"constructor": 0, "fields": [..]}`. In CBOR the constructors 0 to 6 are the tags 121 to
//! 127, and a larger one is the tag 102 around its number and its fields.

use crate::base16::{decode_hex, encode_hex};
use crate::cbor::{decode_cbor, encode_cbor, print_cbor, Cbor, CborView};
use crate::error::{CardanoError, ErrorView};
use crate::json::{write_json, Json, JsonView};
use crate::text::u64_text;
use crate::types::{
    Action, ActionView, Invoice, InvoiceView, Offramp, OfframpView, State, StateView,
};
use crate::{base16, cbor, error, json, round_trip, text};
use vstd::prelude::*;
use vstd::string::*;
use vstd::utf8::*;

verus! {

/// An integer as Plutus JSON.
pub open spec fn integer_json(n: int) -> JsonView {
    JsonView::Object(Map::empty().insert("int"@, json::number(n)))
}

/// The integer `n` as Plutus JSON.
pub open spec fn int_json(n: i64) -> JsonView {
    integer_json(n as int)
}

/// A byte string as Plutus JSON, by its hexadecimal text.
pub open spec fn bytes_json(hex: Seq<char>) -> JsonView {
    JsonView::Object(Map::empty().insert("bytes"@, JsonView::Str(hex)))
}

/// A list as Plutus JSON.
pub open spec fn list_json(items: Seq<JsonView>) -> JsonView {
    JsonView::Object(Map::empty().insert("list"@, JsonView::Array(items)))
}

/// A constructor with its fields as Plutus JSON.
pub open spec fn constructor_json(n: int, fields: Seq<JsonView>) -> JsonView {
    JsonView::Object(
        Map::empty().insert("constructor"@, json::number(n)).insert(
            "fields"@,
            JsonView::Array(fields),
        ),
    )
}

/// The integer of Plutus JSON like `{"int": 42}`.
pub open spec fn int_of(j: JsonView) -> Result<i64, ErrorView> {
    match json::integer_at(j, "int"@) {
        Some(n) => Ok(n),
        None => Err(
            ErrorView::Parse("expected {\"int\": ...}, got "@ + json::json_text(j)),
        ),
    }
}

/// The hexadecimal text of Plutus JSON like `{"bytes": "abcd"}`.
pub open spec fn bytes_of(j: JsonView) -> Result<Seq<char>, ErrorView> {
    match json::string_at(j, "bytes"@) {
        Some(s) => Ok(s),
        None => Err(
            ErrorView::Parse("expected {\"bytes\": ...}, got "@ + json::json_text(j)),
        ),
    }
}

/// Extracts an integer from a Plutus JSON field like `{"int": 42}`.
pub fn plutus_int(val: &Json) -> (r: Result<i64, CardanoError>)
    ensures
        error::outcome(r) == int_of(val@),
{
    match val.get_i64("int") {
        Some(n) => Ok(n),
        None => Err(
            CardanoError::parse_with("expected {\"int\": ...}, got ", write_json(val).as_str()),
        ),
    }
}

/// Extracts a hex byte string from a Plutus JSON field like `{"bytes": "abcd"}`.
pub fn plutus_bytes(val: &Json) -> (r: Result<String, CardanoError>)
    ensures
        error::outcome(r) == bytes_of(val@),
{
    match val.get_str("bytes") {
        Some(s) => Ok(s.to_owned()),
        None => Err(
            CardanoError::parse_with("expected {\"bytes\": ...}, got ", write_json(val).as_str()),
        ),
    }
}

/// The Plutus JSON that a CBOR item stands for.
///
/// Integers keep their value, however large. Text counts as its bytes. Behind the number of a
/// constructor under the tag 102, arrays and single items all hold fields.
pub open spec fn cbor_to_json(c: CborView) -> Result<JsonView, ErrorView>
    decreases c,
{
    match c {
        CborView::Integer(n) => Ok(integer_json(n as int)),
        CborView::Bytes(b) => Ok(bytes_json(base16::hex_text(b))),
        CborView::Text(s) => Ok(bytes_json(base16::hex_text(encode_utf8(s)))),
        CborView::Array(items) => match items_to_json(items) {
            Ok(list) => Ok(list_json(list)),
            Err(e) => Err(e),
        },
        CborView::Tag(tag, inner) => if 121 <= tag <= 127 {
            match *inner {
                CborView::Array(items) => match items_to_json(items) {
                    Ok(fields) => Ok(constructor_json(tag - 121, fields)),
                    Err(e) => Err(e),
                },
                _ => Err(
                    ErrorView::Parse(
                        "expected array inside constructor tag, got "@ + cbor::debug_cbor(
                            *inner,
                        ),
                    ),
                ),
            }
        } else if tag == 102 {
            match *inner {
                CborView::Array(items) => if items.len() > 0 && items[0] is Integer {
                    match parts_to_json(items) {
                        Ok(fields) => Ok(constructor_json(items[0]->Integer_0 as int, fields)),
                        Err(e) => Err(e),
                    }
                } else {
                    Err(bad_constructor(*inner))
                },
                _ => Err(bad_constructor(*inner)),
            }
        } else {
            Err(ErrorView::Parse("unexpected CBOR tag: "@ + text::decimal(tag as int)))
        },
        _ => Err(
            ErrorView::Parse("unsupported CBOR value type: "@ + cbor::debug_cbor(c)),
        ),
    }
}

/// What is said of a tag 102 that does not hold an array led by an integer.
pub open spec fn bad_constructor(inner: CborView) -> ErrorView {
    ErrorView::Parse("invalid Tag 102 encoding: "@ + cbor::debug_cbor(inner))
}

/// The Plutus JSON of some CBOR items, or the first error among them.
pub open spec fn items_to_json(items: Seq<CborView>) -> Result<Seq<JsonView>, ErrorView>
    decreases items,
{
    if items.len() == 0 {
        Ok(Seq::empty())
    } else {
        match items_to_json(items.drop_last()) {
            Ok(before) => match cbor_to_json(items.last()) {
                Ok(last) => Ok(before.push(last)),
                Err(e) => Err(e),
            },
            Err(e) => Err(e),
        }
    }
}

/// The fields that stand behind the first item of `items`: the items of each array, and
/// every other item itself; or the first error among them.
pub open spec fn parts_to_json(items: Seq<CborView>) -> Result<Seq<JsonView>, ErrorView>
    decreases items,
{
    if items.len() <= 1 {
        Ok(Seq::empty())
    } else {
        match parts_to_json(items.drop_last()) {
            Ok(before) => match items.last() {
                CborView::Array(inner) => match items_to_json(inner) {
                    Ok(fields) => Ok(before + fields),
                    Err(e) => Err(e),
                },
                item => match cbor_to_json(item) {
                    Ok(field) => Ok(before.push(field)),
                    Err(e) => Err(e),
                },
            },
            Err(e) => Err(e),
        }
    }
}

/// The Plutus JSON of the CBOR item that a hexadecimal text stands for.
pub open spec fn hex_to_json(hex: Seq<char>) -> Result<JsonView, ErrorView> {
    if !base16::is_hex(hex) {
        Err(
            ErrorView::Parse("invalid hex in inline_datum: "@ + base16::hex_error(hex)),
        )
    } else {
        match cbor::decoded_cbor(base16::hex_bytes(hex)) {
            Ok(c) => cbor_to_json(c),
            Err(e) => Err(ErrorView::Parse("CBOR decode failed: "@ + e)),
        }
    }
}

/// The models of a result that holds documents.
pub open spec fn documents(r: Result<Vec<Json>, CardanoError>) -> Result<Seq<JsonView>, ErrorView> {
    match r {
        Ok(v) => Ok(json::array_view(v@)),
        Err(e) => Err(e@),
    }
}

/// Writes an integer as Plutus JSON.
fn integer_value(n: i128) -> (r: Json)
    ensures
        r@ == integer_json(n as int),
{
    Json::object1("int", Json::from_i128(n))
}

/// Writes the integer `n` as Plutus JSON.
fn int_value(n: i64) -> (r: Json)
    ensures
        r@ == int_json(n),
{
    integer_value(n as i128)
}

/// Writes a byte string as Plutus JSON.
fn bytes_value(hex: &str) -> (r: Json)
    ensures
        r@ == bytes_json(hex@),
{
    Json::object1("bytes", Json::Str(hex.to_owned()))
}

/// Writes a list as Plutus JSON.
fn list_value(items: Vec<Json>) -> (r: Json)
    ensures
        r@ == list_json(json::array_view(items@)),
{
    Json::object1("list", Json::Array(items))
}

/// Writes a constructor as Plutus JSON.
fn constructor_value(n: i128, fields: Vec<Json>) -> (r: Json)
    ensures
        r@ == constructor_json(n as int, json::array_view(fields@)),
{
    Json::object2("constructor", Json::from_i128(n), "fields", Json::Array(fields))
}

/// Converts a CBOR hex string, as some nodes return it, into Plutus JSON.
pub fn cbor_hex_to_plutus_json(hex_str: &str) -> (r: Result<Json, CardanoError>)
    ensures
        error::outcome(r) == hex_to_json(hex_str@),
{
    let bytes = match decode_hex(hex_str) {
        Ok(bytes) => bytes,
        Err(e) => {
            return Err(CardanoError::parse_with("invalid hex in inline_datum: ", e.as_str()));
        },
    };
    match decode_cbor(bytes.as_slice()) {
        Ok(c) => cbor_to_plutus_json(&c),
        Err(e) => Err(CardanoError::parse_with("CBOR decode failed: ", e.as_str())),
    }
}

/// Converts a CBOR item into Plutus JSON.
pub fn cbor_to_plutus_json(val: &Cbor) -> (r: Result<Json, CardanoError>)
    ensures
        error::outcome(r) == cbor_to_json(val@),
    decreases val@,
{
    match val {
        Cbor::Integer(n) => Ok(integer_value(*n)),
        Cbor::Bytes(b) => Ok(bytes_value(encode_hex(b.as_slice()).as_str())),
        Cbor::Text(s) => Ok(bytes_value(encode_hex(s.as_str().as_bytes()).as_str())),
        Cbor::Array(items) => {
            assert(decreases_to!(val@ => val@->Array_0));
            match cbor_items_to_json(items) {
                Ok(list) => Ok(list_value(list)),
                Err(e) => Err(e),
            }
        },
        Cbor::Tag(tag, inner) => {
            assert(decreases_to!(val@ => *val@->Tag_1));
            if 121 <= *tag && *tag <= 127 {
                match &**inner {
                    Cbor::Array(items) => {
                        assert(decreases_to!(inner@ => inner@->Array_0));
                        match cbor_items_to_json(items) {
                            Ok(fields) => Ok(constructor_value((*tag - 121) as i128, fields)),
                            Err(e) => Err(e),
                        }
                    },
                    other => Err(
                        CardanoError::parse_with(
                            "expected array inside constructor tag, got ",
                            print_cbor(other).as_str(),
                        ),
                    ),
                }
            } else if *tag == 102 {
                match &**inner {
                    Cbor::Array(items) => {
                        assert(decreases_to!(inner@ => inner@->Array_0));
                        proof {
                            cbor::lemma_items_view(items@);
                        }
                        if items.len() > 0 {
                            if let Cbor::Integer(n) = &items[0] {
                                return match cbor_parts_to_json(items) {
                                    Ok(fields) => Ok(constructor_value(*n, fields)),
                                    Err(e) => Err(e),
                                };
                            }
                        }
                    },
                    _ => {},
                }
                Err(
                    CardanoError::parse_with(
                        "invalid Tag 102 encoding: ",
                        print_cbor(inner).as_str(),
                    ),
                )
            } else {
                Err(
                    CardanoError::parse_with("unexpected CBOR tag: ", u64_text(*tag).as_str()),
                )
            }
        },
        other => Err(
            CardanoError::parse_with(
                "unsupported CBOR value type: ",
                print_cbor(other).as_str(),
            ),
        ),
    }
}

/// Converts CBOR items into Plutus JSON, up to the first error.
fn cbor_items_to_json(items: &Vec<Cbor>) -> (r: Result<Vec<Json>, CardanoError>)
    ensures
        documents(r) == items_to_json(cbor::items_view(items@)),
    decreases cbor::items_view(items@),
{
    let ghost views = cbor::items_view(items@);
    proof {
        cbor::lemma_items_view(items@);
        assert(views.take(0) =~= Seq::empty());
    }
    let mut list: Vec<Json> = Vec::new();
    let mut i: usize = 0;
    while i < items.len()
        invariant
            i <= items.len(),
            views == cbor::items_view(items@),
            views.len() == items.len(),
            forall|k: int| 0 <= k < items.len() ==> #[trigger] views[k] == items[k]@,
            items_to_json(views.take(i as int)) == Ok::<Seq<JsonView>, ErrorView>(
                json::array_view(list@),
            ),
        decreases items.len() - i,
    {
        assert(views.take(i + 1).drop_last() =~= views.take(i as int));
        assert(decreases_to!(views => views[i as int]));
        match cbor_to_plutus_json(&items[i]) {
            Ok(j) => {
                proof {
                    json::lemma_array_push(list@, j);
                }
                list.push(j);
            },
            Err(e) => {
                proof {
                    lemma_items_error(views, i + 1);
                }
                return Err(e);
            },
        }
        i = i + 1;
    }
    assert(views.take(i as int) =~= views);
    Ok(list)
}

/// An error among the first items is the error of all.
proof fn lemma_items_error(items: Seq<CborView>, k: int)
    requires
        0 <= k <= items.len(),
        items_to_json(items.take(k)) is Err,
    ensures
        items_to_json(items) == items_to_json(items.take(k)),
    decreases items.len() - k,
{
    if k < items.len() {
        assert(items.take(k + 1).drop_last() =~= items.take(k));
        lemma_items_error(items, k + 1);
    } else {
        assert(items.take(k) =~= items);
    }
}

/// An error among the first parts is the error of all.
proof fn lemma_parts_error(items: Seq<CborView>, k: int)
    requires
        1 <= k <= items.len(),
        parts_to_json(items.take(k)) is Err,
    ensures
        parts_to_json(items) == parts_to_json(items.take(k)),
    decreases items.len() - k,
{
    if k < items.len() {
        assert(items.take(k + 1).drop_last() =~= items.take(k));
        lemma_parts_error(items, k + 1);
    } else {
        assert(items.take(k) =~= items);
    }
}

/// Converts what stands behind the first of some CBOR items into fields.
fn cbor_parts_to_json(items: &Vec<Cbor>) -> (r: Result<Vec<Json>, CardanoError>)
    requires
        items.len() > 0,
    ensures
        documents(r) == parts_to_json(cbor::items_view(items@)),
    decreases cbor::items_view(items@),
{
    let ghost views = cbor::items_view(items@);
    proof {
        cbor::lemma_items_view(items@);
    }
    let mut list: Vec<Json> = Vec::new();
    let mut i: usize = 1;
    while i < items.len()
        invariant
            1 <= i <= items.len(),
            views == cbor::items_view(items@),
            views.len() == items.len(),
            forall|k: int| 0 <= k < items.len() ==> #[trigger] views[k] == items[k]@,
            parts_to_json(views.take(i as int)) == Ok::<Seq<JsonView>, ErrorView>(
                json::array_view(list@),
            ),
        decreases items.len() - i,
    {
        assert(views.take(i + 1).drop_last() =~= views.take(i as int));
        assert(decreases_to!(views => views[i as int]));
        match &items[i] {
            Cbor::Array(inner) => {
                assert(decreases_to!(views[i as int] => views[i as int]->Array_0));
                match cbor_items_to_json(inner) {
                    Ok(fields) => {
                        let mut fields = fields;
                        proof {
                            json::lemma_array_append(list@, fields@);
                        }
                        list.append(&mut fields);
                    },
                    Err(e) => {
                        proof {
                            lemma_parts_error(views, i + 1);
                        }
                        return Err(e);
                    },
                }
            },
            item => match cbor_to_plutus_json(item) {
                Ok(j) => {
                    proof {
                        json::lemma_array_push(list@, j);
                    }
                    list.push(j);
                },
                Err(e) => {
                    proof {
                        lemma_parts_error(views, i + 1);
                    }
                    return Err(e);
                },
            },
        }
        i = i + 1;
    }
    assert(views.take(i as int) =~= views);
    Ok(list)
}

/// An invoice as Plutus JSON.
pub open spec fn invoice_json(v: InvoiceView) -> JsonView {
    constructor_json(
        0,
        seq![
            int_json(v.invoice_id),
            int_json(v.amount),
            bytes_json(v.owner),
            int_json(v.timestamp),
            int_json(v.expires_at),
        ],
    )
}

/// An offramp as Plutus JSON.
pub open spec fn offramp_json(v: OfframpView) -> JsonView {
    constructor_json(
        0,
        seq![
            int_json(v.offramp_id),
            int_json(v.amount),
            bytes_json(v.payment_hash),
            bytes_json(v.refund_address),
            int_json(v.expires_at),
        ],
    )
}

/// Some invoices as Plutus JSON.
pub open spec fn invoices_json(invoices: Seq<InvoiceView>) -> Seq<JsonView> {
    Seq::new(invoices.len(), |i: int| invoice_json(invoices[i]))
}

/// Some offramps as Plutus JSON.
pub open spec fn offramps_json(offramps: Seq<OfframpView>) -> Seq<JsonView> {
    Seq::new(offramps.len(), |i: int| offramp_json(offramps[i]))
}

/// A pool state as Plutus JSON.
pub open spec fn state_json(v: StateView) -> JsonView {
    constructor_json(
        0,
        seq![
            int_json(v.total_liquidity),
            int_json(v.reserved),
            int_json(v.last_invoice_id),
            list_json(invoices_json(v.invoices)),
            int_json(v.last_offramp_id),
            list_json(offramps_json(v.offramps)),
        ],
    )
}

/// An action as Plutus JSON.
pub open spec fn action_json(v: ActionView) -> JsonView {
    match v {
        ActionView::Deposit { amount } => constructor_json(0, seq![int_json(amount)]),
        ActionView::Withdraw { amount } => constructor_json(1, seq![int_json(amount)]),
        ActionView::CreateInvoice { amount, owner, timestamp, expires_at } => constructor_json(
            2,
            seq![int_json(amount), bytes_json(owner), int_json(timestamp), int_json(expires_at)],
        ),
        ActionView::FulfillInvoice { invoice } => constructor_json(3, seq![invoice_json(invoice)]),
        ActionView::CancelInvoice { invoice_id } => constructor_json(4, seq![int_json(invoice_id)]),
        ActionView::CreateOfframp { amount, payment_hash, refund_address, expires_at } => {
            constructor_json(
                5,
                seq![
                    int_json(amount),
                    bytes_json(payment_hash),
                    bytes_json(refund_address),
                    int_json(expires_at),
                ],
            )
        },
        ActionView::FulfillOfframp { offramp } => constructor_json(6, seq![offramp_json(offramp)]),
        ActionView::CancelOfframp { offramp_id } => constructor_json(7, seq![int_json(offramp_id)]),
    }
}

/// Writes a constructor of one field.
fn constructor1(n: i128, a: Json) -> (r: Json)
    ensures
        r@ == constructor_json(n as int, seq![a@]),
{
    let fields = vec![a];
    proof {
        json::lemma_array_view(fields@);
        assert(json::array_view(fields@) =~= seq![a@]);
    }
    constructor_value(n, fields)
}

/// Writes a constructor of four fields.
fn constructor4(n: i128, a: Json, b: Json, c: Json, d: Json) -> (r: Json)
    ensures
        r@ == constructor_json(n as int, seq![a@, b@, c@, d@]),
{
    let fields = vec![a, b, c, d];
    proof {
        json::lemma_array_view(fields@);
        assert(json::array_view(fields@) =~= seq![a@, b@, c@, d@]);
    }
    constructor_value(n, fields)
}

/// Writes a constructor of five fields.
fn constructor5(n: i128, a: Json, b: Json, c: Json, d: Json, e: Json) -> (r: Json)
    ensures
        r@ == constructor_json(n as int, seq![a@, b@, c@, d@, e@]),
{
    let fields = vec![a, b, c, d, e];
    proof {
        json::lemma_array_view(fields@);
        assert(json::array_view(fields@) =~= seq![a@, b@, c@, d@, e@]);
    }
    constructor_value(n, fields)
}

/// Serializes a state to Plutus JSON, for the inline datum of a transaction output.
pub fn state_to_plutus_json(state: &State) -> (r: Json)
    ensures
        r@ == state_json(state@),
{
    let mut invoices: Vec<Json> = Vec::new();
    let mut i: usize = 0;
    while i < state.invoices.len()
        invariant
            i <= state.invoices.len(),
            invoices.len() == i,
            forall|k: int|
                0 <= k < i ==> (#[trigger] invoices[k])@ == invoice_json(state.invoices[k]@),
        decreases state.invoices.len() - i,
    {
        invoices.push(invoice_to_plutus_json(&state.invoices[i]));
        i = i + 1;
    }
    let mut offramps: Vec<Json> = Vec::new();
    let mut j: usize = 0;
    while j < state.offramps.len()
        invariant
            j <= state.offramps.len(),
            offramps.len() == j,
            forall|k: int|
                0 <= k < j ==> (#[trigger] offramps[k])@ == offramp_json(state.offramps[k]@),
        decreases state.offramps.len() - j,
    {
        offramps.push(offramp_to_plutus_json(&state.offramps[j]));
        j = j + 1;
    }
    proof {
        json::lemma_array_view(invoices@);
        json::lemma_array_view(offramps@);
        assert(json::array_view(invoices@) =~= invoices_json(state@.invoices));
        assert(json::array_view(offramps@) =~= offramps_json(state@.offramps));
    }
    let fields = vec![
        int_value(state.total_liquidity),
        int_value(state.reserved),
        int_value(state.last_invoice_id),
        list_value(invoices),
        int_value(state.last_offramp_id),
        list_value(offramps),
    ];
    proof {
        json::lemma_array_view(fields@);
        assert(json::array_view(fields@) =~= seq![
            int_json(state@.total_liquidity),
            int_json(state@.reserved),
            int_json(state@.last_invoice_id),
            list_json(invoices_json(state@.invoices)),
            int_json(state@.last_offramp_id),
            list_json(offramps_json(state@.offramps)),
        ]);
    }
    constructor_value(0, fields)
}

/// Serializes an invoice to Plutus JSON.
pub fn invoice_to_plutus_json(invoice: &Invoice) -> (r: Json)
    ensures
        r@ == invoice_json(invoice@),
{
    constructor5(
        0,
        int_value(invoice.invoice_id),
        int_value(invoice.amount),
        bytes_value(invoice.owner.as_str()),
        int_value(invoice.timestamp),
        int_value(invoice.expires_at),
    )
}

/// Serializes an offramp to Plutus JSON.
pub fn offramp_to_plutus_json(offramp: &Offramp) -> (r: Json)
    ensures
        r@ == offramp_json(offramp@),
{
    constructor5(
        0,
        int_value(offramp.offramp_id),
        int_value(offramp.amount),
        bytes_value(offramp.payment_hash.as_str()),
        bytes_value(offramp.refund_address.as_str()),
        int_value(offramp.expires_at),
    )
}

/// Serializes an action (redeemer) to Plutus JSON.
pub fn action_to_plutus_json(action: &Action) -> (r: Json)
    ensures
        r@ == action_json(action@),
{
    match action {
        Action::Deposit { amount } => constructor1(0, int_value(*amount)),
        Action::Withdraw { amount } => constructor1(1, int_value(*amount)),
        Action::CreateInvoice { amount, owner, timestamp, expires_at } => constructor4(
            2,
            int_value(*amount),
            bytes_value(owner.as_str()),
            int_value(*timestamp),
            int_value(*expires_at),
        ),
        Action::FulfillInvoice { invoice } => constructor1(3, invoice_to_plutus_json(invoice)),
        Action::CancelInvoice { invoice_id } => constructor1(4, int_value(*invoice_id)),
        Action::CreateOfframp { amount, payment_hash, refund_address, expires_at } => constructor4(
            5,
            int_value(*amount),
            bytes_value(payment_hash.as_str()),
            bytes_value(refund_address.as_str()),
            int_value(*expires_at),
        ),
        Action::FulfillOfframp { offramp } => constructor1(6, offramp_to_plutus_json(offramp)),
        Action::CancelOfframp { offramp_id } => constructor1(7, int_value(*offramp_id)),
    }
}

/// The CBOR item that Plutus JSON stands for.
pub open spec fn json_to_cbor(j: JsonView) -> Result<CborView, ErrorView>
    decreases j,
{
    if let Some(n) = json::integer_at(j, "int"@) {
        Ok(CborView::Integer(n as i128))
    } else if let Some(hex) = json::string_at(j, "bytes"@) {
        if base16::is_hex(hex) {
            Ok(CborView::Bytes(base16::hex_bytes(hex)))
        } else {
            Err(
                ErrorView::Parse("invalid hex in bytes field: "@ + base16::hex_error(hex)),
            )
        }
    } else if let Some(items) = json::items_at(j, "list"@) {
        match jsons_to_cbor(items) {
            Ok(list) => Ok(CborView::Array(list)),
            Err(e) => Err(e),
        }
    } else if let Some(n) = json::unsigned_at(j, "constructor"@) {
        if let Some(items) = json::items_at(j, "fields"@) {
            match jsons_to_cbor(items) {
                Ok(fields) => Ok(constructor_cbor(n, fields)),
                Err(e) => Err(e),
            }
        } else {
            Err(ErrorView::Parse("constructor without fields"@))
        }
    } else {
        Err(ErrorView::Parse("unsupported Plutus JSON value: "@ + json::json_text(j)))
    }
}

/// The CBOR items that some Plutus JSON stands for, or the first error among them.
pub open spec fn jsons_to_cbor(items: Seq<JsonView>) -> Result<Seq<CborView>, ErrorView>
    decreases items,
{
    if items.len() == 0 {
        Ok(Seq::empty())
    } else {
        match jsons_to_cbor(items.drop_last()) {
            Ok(before) => match json_to_cbor(items.last()) {
                Ok(last) => Ok(before.push(last)),
                Err(e) => Err(e),
            },
            Err(e) => Err(e),
        }
    }
}

/// A constructor in CBOR.
pub open spec fn constructor_cbor(n: u64, fields: Seq<CborView>) -> CborView {
    if n <= 6 {
        CborView::Tag((121 + n) as u64, Box::new(CborView::Array(fields)))
    } else {
        CborView::Tag(
            102,
            Box::new(
                CborView::Array(
                    seq![CborView::Integer(n as i128), CborView::Array(fields)],
                ),
            ),
        )
    }
}

/// The hexadecimal text of the CBOR of some Plutus JSON.
pub open spec fn json_to_hex(j: JsonView) -> Result<Seq<char>, ErrorView> {
    match json_to_cbor(j) {
        Ok(c) => Ok(base16::hex_text(cbor::encoded_cbor(c))),
        Err(e) => Err(e),
    }
}

/// The models of a result that holds CBOR items.
pub open spec fn cbor_items(r: Result<Vec<Cbor>, CardanoError>) -> Result<
    Seq<CborView>,
    ErrorView,
> {
    match r {
        Ok(v) => Ok(cbor::items_view(v@)),
        Err(e) => Err(e@),
    }
}

/// An error among the first documents is the error of all.
proof fn lemma_jsons_error(items: Seq<JsonView>, k: int)
    requires
        0 <= k <= items.len(),
        jsons_to_cbor(items.take(k)) is Err,
    ensures
        jsons_to_cbor(items) == jsons_to_cbor(items.take(k)),
    decreases items.len() - k,
{
    if k < items.len() {
        assert(items.take(k + 1).drop_last() =~= items.take(k));
        lemma_jsons_error(items, k + 1);
    } else {
        assert(items.take(k) =~= items);
    }
}

/// Converts Plutus JSON to CBOR hex, for datums and redeemers.
///
/// Where each item holds nothing beside its own members, this succeeds, and
/// [`cbor_hex_to_plutus_json`] gives the JSON back with its byte strings in lowercase, unless
/// it is nested more deeply than the CBOR reader's limit.
pub fn plutus_json_to_cbor_hex(val: &Json) -> (r: Result<String, CardanoError>)
    ensures
        error::outcome(r) == json_to_hex(val@),
        round_trip::is_plutus(val@) ==> r is Ok,
        round_trip::is_plutus(val@) && cbor::depth(json_to_cbor(val@)->Ok_0)
            <= cbor::MAX_DEPTH ==> hex_to_json(r->Ok_0@) == Ok::<JsonView, ErrorView>(
            round_trip::lowered(val@),
        ),
{
    match plutus_json_to_cbor(val) {
        Ok(c) => {
            let bytes = encode_cbor(&c);
            proof {
                base16::lemma_decode_encode(bytes@);
                if round_trip::is_plutus(val@) {
                    round_trip::lemma_json_round_trip(val@);
                    round_trip::lemma_datum_plain(c@);
                }
            }
            Ok(encode_hex(bytes.as_slice()))
        },
        Err(e) => {
            proof {
                if round_trip::is_plutus(val@) {
                    round_trip::lemma_json_round_trip(val@);
                }
            }
            Err(e)
        },
    }
}

/// Converts Plutus JSON into a CBOR item.
pub fn plutus_json_to_cbor(val: &Json) -> (r: Result<Cbor, CardanoError>)
    ensures
        error::outcome(r) == json_to_cbor(val@),
    decreases val@,
{
    if let Some(n) = val.get_i64("int") {
        return Ok(Cbor::Integer(n as i128));
    }
    if let Some(b) = val.get_str("bytes") {
        return match decode_hex(b) {
            Ok(bytes) => Ok(Cbor::Bytes(bytes)),
            Err(e) => Err(
                CardanoError::parse_with("invalid hex in bytes field: ", e.as_str()),
            ),
        };
    }
    if let Some(items) = val.get_array("list") {
        proof {
            lemma_member_smaller(val@, "list"@);
        }
        return match jsons_to_cbor_items(items) {
            Ok(list) => Ok(Cbor::Array(list)),
            Err(e) => Err(e),
        };
    }
    if let Some(n) = val.get_u64("constructor") {
        return match val.get_array("fields") {
            Some(items) => {
                proof {
                    lemma_member_smaller(val@, "fields"@);
                }
                match jsons_to_cbor_items(items) {
                    Ok(fields) => Ok(constructor_item(n, fields)),
                    Err(e) => Err(e),
                }
            },
            None => Err(CardanoError::parse("constructor without fields")),
        };
    }
    Err(CardanoError::parse_with("unsupported Plutus JSON value: ", write_json(val).as_str()))
}

/// The array under a key is a part of its document.
pub proof fn lemma_member_smaller(j: JsonView, key: Seq<char>)
    requires
        json::items_at(j, key) is Some,
    ensures
        decreases_to!(j => json::items_at(j, key)->Some_0),
{
    assert(j->Object_0.dom().contains(key));
    assert(decreases_to!(j => j->Object_0[key]));
    assert(decreases_to!(j->Object_0[key] => j->Object_0[key]->Array_0));
}

/// Builds a constructor in CBOR.
fn constructor_item(n: u64, fields: Vec<Cbor>) -> (r: Cbor)
    ensures
        r@ == constructor_cbor(n, cbor::items_view(fields@)),
{
    if n <= 6 {
        let list = Cbor::Array(fields);
        assert(list@ == CborView::Array(cbor::items_view(fields@)));
        Cbor::Tag(121 + n, Box::new(list))
    } else {
        let number = Cbor::Integer(n as i128);
        let list = Cbor::Array(fields);
        assert(list@ == CborView::Array(cbor::items_view(fields@)));
        let mut items: Vec<Cbor> = Vec::new();
        proof {
            cbor::lemma_items_push(items@, number);
            cbor::lemma_items_push(items@.push(number), list);
        }
        items.push(number);
        items.push(list);
        assert(cbor::items_view(items@) =~= seq![number@, list@]);
        let pair = Cbor::Array(items);
        assert(pair@ == CborView::Array(cbor::items_view(items@)));
        Cbor::Tag(102, Box::new(pair))
    }
}

/// Converts some Plutus JSON into CBOR items, up to the first error.
fn jsons_to_cbor_items(items: &Vec<Json>) -> (r: Result<Vec<Cbor>, CardanoError>)
    ensures
        cbor_items(r) == jsons_to_cbor(json::array_view(items@)),
    decreases json::array_view(items@),
{
    let ghost views = json::array_view(items@);
    proof {
        json::lemma_array_view(items@);
        assert(views.take(0) =~= Seq::empty());
    }
    let mut list: Vec<Cbor> = Vec::new();
    let mut i: usize = 0;
    while i < items.len()
        invariant
            i <= items.len(),
            views == json::array_view(items@),
            views.len() == items.len(),
            forall|k: int| 0 <= k < items.len() ==> #[trigger] views[k] == items[k]@,
            jsons_to_cbor(views.take(i as int)) == Ok::<Seq<CborView>, ErrorView>(
                cbor::items_view(list@),
            ),
        decreases items.len() - i,
    {
        assert(views.take(i + 1).drop_last() =~= views.take(i as int));
        assert(decreases_to!(views => views[i as int]));
        match plutus_json_to_cbor(&items[i]) {
            Ok(c) => {
                proof {
                    cbor::lemma_items_push(list@, c);
                }
                list.push(c);
            },
            Err(e) => {
                proof {
                    lemma_jsons_error(views, i + 1);
                }
                return Err(e);
            },
        }
        i = i + 1;
    }
    assert(views.take(i as int) =~= views);
    Ok(list)
}

} // verus!

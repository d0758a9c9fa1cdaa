//! What goes into a datum comes back out of it: the laws that relate pool states and
//! actions, their Plutus JSON and their CBOR.

use crate::cbor::CborView;
use crate::error::ErrorView;
use crate::json::JsonView;
use crate::types::{ActionView, InvoiceView, OfframpView, StateView};
use crate::{base16, cbor, datum, json, types};
use vstd::prelude::*;

verus! {

/// Whether Plutus JSON holds nothing beside the members that its items have, and its byte
/// strings are hexadecimal.
pub open spec fn is_plutus(j: JsonView) -> bool
    decreases j,
{
    if let Some(n) = json::integer_at(j, "int"@) {
        j == datum::int_json(n)
    } else if let Some(hex) = json::string_at(j, "bytes"@) {
        j == datum::bytes_json(hex) && base16::is_hex(hex)
    } else if let Some(items) = json::items_at(j, "list"@) {
        j == datum::list_json(items) && are_plutus(items)
    } else if let Some(n) = json::unsigned_at(j, "constructor"@) {
        if let Some(fields) = json::items_at(j, "fields"@) {
            j == datum::constructor_json(n as int, fields) && are_plutus(fields)
        } else {
            false
        }
    } else {
        false
    }
}

/// Whether each of some documents is Plutus JSON.
pub open spec fn are_plutus(items: Seq<JsonView>) -> bool
    decreases items,
{
    items.len() == 0 || (are_plutus(items.drop_last()) && is_plutus(items.last()))
}

/// Plutus JSON with its byte strings in lowercase.
pub open spec fn lowered(j: JsonView) -> JsonView
    decreases j,
{
    if let Some(n) = json::integer_at(j, "int"@) {
        j
    } else if let Some(hex) = json::string_at(j, "bytes"@) {
        datum::bytes_json(base16::lowercase(hex))
    } else if let Some(items) = json::items_at(j, "list"@) {
        datum::list_json(all_lowered(items))
    } else if let Some(n) = json::unsigned_at(j, "constructor"@) {
        if let Some(fields) = json::items_at(j, "fields"@) {
            datum::constructor_json(n as int, all_lowered(fields))
        } else {
            j
        }
    } else {
        j
    }
}

/// Some Plutus JSON with its byte strings in lowercase.
pub open spec fn all_lowered(items: Seq<JsonView>) -> Seq<JsonView>
    decreases items,
{
    if items.len() == 0 {
        Seq::empty()
    } else {
        all_lowered(items.drop_last()).push(lowered(items.last()))
    }
}

/// Whether a CBOR item is Plutus data in the form in which it is written here.
pub open spec fn is_datum(c: CborView) -> bool
    decreases c,
{
    match c {
        CborView::Integer(n) => i64::MIN <= n <= i64::MAX,
        CborView::Bytes(_) => true,
        CborView::Array(items) => are_data(items),
        CborView::Tag(tag, inner) => match *inner {
            CborView::Array(items) => if 121 <= tag <= 127 {
                are_data(items)
            } else {
                tag == 102 && items.len() == 2 && match (items[0], items[1]) {
                    (CborView::Integer(n), CborView::Array(fields)) => 7 <= n <= u64::MAX
                        && are_data(fields),
                    _ => false,
                }
            },
            _ => false,
        },
        _ => false,
    }
}

/// Whether each of some CBOR items is Plutus data.
pub open spec fn are_data(items: Seq<CborView>) -> bool
    decreases items,
{
    items.len() == 0 || (are_data(items.drop_last()) && is_datum(items.last()))
}

/// The keys of Plutus JSON are different from each other.
proof fn lemma_keys()
    ensures
        "int"@.len() == 3,
        "bytes"@.len() == 5,
        "list"@.len() == 4,
        "constructor"@.len() == 11,
        "fields"@.len() == 6,
{
    reveal_strlit("int");
    reveal_strlit("bytes");
    reveal_strlit("list");
    reveal_strlit("constructor");
    reveal_strlit("fields");
}

/// What is read of each kind of Plutus JSON.
proof fn lemma_members(n: i64, hex: Seq<char>, items: Seq<JsonView>)
    ensures
        json::integer_at(datum::int_json(n), "int"@) == Some(n),
        json::integer_at(datum::bytes_json(hex), "int"@) is None,
        json::string_at(datum::bytes_json(hex), "bytes"@) == Some(hex),
        json::integer_at(datum::list_json(items), "int"@) is None,
        json::string_at(datum::list_json(items), "bytes"@) is None,
        json::items_at(datum::list_json(items), "list"@) == Some(items),
{
    lemma_keys();
}

/// What is read of a constructor in Plutus JSON.
proof fn lemma_constructor_members(n: u64, items: Seq<JsonView>)
    ensures
        json::integer_at(datum::constructor_json(n as int, items), "int"@) is None,
        json::string_at(datum::constructor_json(n as int, items), "bytes"@) is None,
        json::items_at(datum::constructor_json(n as int, items), "list"@) is None,
        json::items_at(datum::constructor_json(n as int, items), "fields"@) == Some(items),
        json::unsigned_at(datum::constructor_json(n as int, items), "constructor"@) == Some(n),
{
    lemma_keys();
}

/// Plutus JSON comes back from CBOR with its byte strings in lowercase.
pub proof fn lemma_json_round_trip(j: JsonView)
    requires
        is_plutus(j),
    ensures
        datum::json_to_cbor(j) is Ok,
        is_datum(datum::json_to_cbor(j)->Ok_0),
        datum::cbor_to_json(datum::json_to_cbor(j)->Ok_0) == Ok::<JsonView, ErrorView>(lowered(j)),
    decreases j,
{
    if let Some(n) = json::integer_at(j, "int"@) {
    } else if let Some(hex) = json::string_at(j, "bytes"@) {
        base16::lemma_encode_decode(hex);
    } else if let Some(items) = json::items_at(j, "list"@) {
        datum::lemma_member_smaller(j, "list"@);
        lemma_jsons_round_trip(items);
    } else if let Some(n) = json::unsigned_at(j, "constructor"@) {
        let fields = json::items_at(j, "fields"@)->Some_0;
        datum::lemma_member_smaller(j, "fields"@);
        lemma_jsons_round_trip(fields);
        if n > 6 {
            lemma_pair(n as i128, datum::jsons_to_cbor(fields)->Ok_0);
        }
    }
}

/// Each of some Plutus JSON comes back from CBOR with its byte strings in lowercase.
pub proof fn lemma_jsons_round_trip(items: Seq<JsonView>)
    requires
        are_plutus(items),
    ensures
        datum::jsons_to_cbor(items) is Ok,
        are_data(datum::jsons_to_cbor(items)->Ok_0),
        datum::items_to_json(datum::jsons_to_cbor(items)->Ok_0) == Ok::<Seq<JsonView>, ErrorView>(
            all_lowered(items),
        ),
    decreases items,
{
    if items.len() > 0 {
        lemma_jsons_round_trip(items.drop_last());
        lemma_json_round_trip(items.last());
        let before = datum::jsons_to_cbor(items.drop_last())->Ok_0;
        let last = datum::json_to_cbor(items.last())->Ok_0;
        assert(before.push(last).drop_last() =~= before);
    }
}

/// The pair under the tag 102 gives its fields back.
proof fn lemma_pair(n: i128, fields: Seq<CborView>)
    ensures
        datum::parts_to_json(seq![CborView::Integer(n), CborView::Array(fields)])
            == datum::items_to_json(fields),
{
    let pair = seq![CborView::Integer(n), CborView::Array(fields)];
    assert(pair.drop_last().len() == 1);
    assert(datum::parts_to_json(pair.drop_last()) == Ok::<Seq<JsonView>, ErrorView>(Seq::empty()));
    if let Ok(list) = datum::items_to_json(fields) {
        assert(Seq::<JsonView>::empty() + list =~= list);
    }
}

/// Plutus data in CBOR comes back from JSON as it was.
pub proof fn lemma_cbor_round_trip(c: CborView)
    requires
        is_datum(c),
    ensures
        datum::cbor_to_json(c) is Ok,
        is_plutus(datum::cbor_to_json(c)->Ok_0),
        datum::json_to_cbor(datum::cbor_to_json(c)->Ok_0) == Ok::<CborView, ErrorView>(c),
    decreases c,
{
    match c {
        CborView::Integer(n) => {
            lemma_members(n as i64, Seq::empty(), Seq::empty());
        },
        CborView::Bytes(b) => {
            base16::lemma_decode_encode(b);
            lemma_members(0, base16::hex_text(b), Seq::empty());
        },
        CborView::Array(items) => {
            lemma_items_round_trip(items);
            lemma_members(0, Seq::empty(), datum::items_to_json(items)->Ok_0);
        },
        CborView::Tag(tag, inner) => {
            let items = inner->Array_0;
            if tag == 102 {
                let n = items[0]->Integer_0;
                let fields = items[1]->Array_0;
                assert(items =~= seq![CborView::Integer(n), CborView::Array(fields)]);
                lemma_items_round_trip(fields);
                lemma_pair(n, fields);
                lemma_constructor_members(n as u64, datum::items_to_json(fields)->Ok_0);
            } else {
                lemma_items_round_trip(items);
                lemma_constructor_members((tag - 121) as u64, datum::items_to_json(items)->Ok_0);
            }
        },
        _ => {},
    }
}

/// Each of some Plutus data in CBOR comes back from JSON as it was.
pub proof fn lemma_items_round_trip(items: Seq<CborView>)
    requires
        are_data(items),
    ensures
        datum::items_to_json(items) is Ok,
        are_plutus(datum::items_to_json(items)->Ok_0),
        datum::jsons_to_cbor(datum::items_to_json(items)->Ok_0) == Ok::<Seq<CborView>, ErrorView>(
            items,
        ),
    decreases items,
{
    if items.len() > 0 {
        lemma_items_round_trip(items.drop_last());
        lemma_cbor_round_trip(items.last());
        let before = datum::items_to_json(items.drop_last())->Ok_0;
        let last = datum::cbor_to_json(items.last())->Ok_0;
        assert(before.push(last).drop_last() =~= before);
        assert(items.drop_last().push(items.last()) =~= items);
    } else {
        assert(items =~= Seq::empty());
    }
}

/// Plutus data is plain CBOR.
pub proof fn lemma_datum_plain(c: CborView)
    requires
        is_datum(c),
    ensures
        cbor::is_plain(c),
    decreases c,
{
    match c {
        CborView::Array(items) => {
            lemma_data_plain(items);
        },
        CborView::Tag(tag, inner) => {
            let items = inner->Array_0;
            if tag == 102 {
                lemma_data_plain(items[1]->Array_0);
                assert(cbor::is_plain(items[0]) && cbor::is_plain(items[1]));
                assert(items.drop_last().drop_last().len() == 0);
                assert(items.drop_last().last() == items[0]);
                assert(cbor::are_plain(items.drop_last().drop_last()));
                assert(cbor::are_plain(items.drop_last()));
                assert(cbor::are_plain(items));
            } else {
                lemma_data_plain(items);
            }
            assert(cbor::is_plain(*inner));
        },
        _ => {},
    }
}

/// Each of some Plutus data is plain CBOR.
proof fn lemma_data_plain(items: Seq<CborView>)
    requires
        are_data(items),
    ensures
        cbor::are_plain(items),
    decreases items,
{
    if items.len() > 0 {
        lemma_data_plain(items.drop_last());
        lemma_datum_plain(items.last());
    }
}

/// How deeply the CBOR of Plutus JSON is nested.
pub open spec fn cbor_depth(j: JsonView) -> nat {
    cbor::depth(datum::json_to_cbor(j)->Ok_0)
}

/// Each of some documents with its byte strings in lowercase.
pub open spec fn each_lowered(items: Seq<JsonView>) -> Seq<JsonView> {
    Seq::new(items.len(), |i: int| lowered(items[i]))
}

/// Documents that are Plutus JSON one by one are so together.
proof fn lemma_each(items: Seq<JsonView>, d: nat)
    requires
        forall|i: int| 0 <= i < items.len() ==> is_plutus(#[trigger] items[i]),
        forall|i: int| 0 <= i < items.len() ==> cbor_depth(#[trigger] items[i]) <= d,
    ensures
        are_plutus(items),
        all_lowered(items) == each_lowered(items),
        datum::jsons_to_cbor(items) is Ok,
        cbor::items_depth(datum::jsons_to_cbor(items)->Ok_0) <= d,
    decreases items.len(),
{
    if items.len() > 0 {
        let before = items.drop_last();
        assert forall|i: int| 0 <= i < before.len() implies is_plutus(#[trigger] before[i])
            && cbor_depth(before[i]) <= d by {
            assert(before[i] == items[i]);
        }
        lemma_each(before, d);
        assert(is_plutus(items.last()) && cbor_depth(items.last()) <= d) by {
            assert(items.last() == items[items.len() - 1]);
        }
        lemma_json_round_trip(items.last());
        let list = datum::jsons_to_cbor(before)->Ok_0;
        let last = datum::json_to_cbor(items.last())->Ok_0;
        assert(list.push(last).drop_last() =~= list);
        assert(each_lowered(items) =~= each_lowered(before).push(lowered(items.last())));
    } else {
        assert(each_lowered(items) =~= Seq::empty());
    }
}

/// An integer is Plutus JSON.
proof fn lemma_int(n: i64)
    ensures
        is_plutus(datum::int_json(n)),
        cbor_depth(datum::int_json(n)) == 0,
        lowered(datum::int_json(n)) == datum::int_json(n),
{
    lemma_members(n, Seq::empty(), Seq::empty());
}

/// A byte string is Plutus JSON.
proof fn lemma_bytes(hex: Seq<char>)
    requires
        base16::is_hex(hex),
    ensures
        is_plutus(datum::bytes_json(hex)),
        cbor_depth(datum::bytes_json(hex)) == 0,
        lowered(datum::bytes_json(hex)) == datum::bytes_json(base16::lowercase(hex)),
{
    lemma_members(0, hex, Seq::empty());
}

/// A list of Plutus JSON is Plutus JSON.
proof fn lemma_list(items: Seq<JsonView>, d: nat)
    requires
        forall|i: int| 0 <= i < items.len() ==> is_plutus(#[trigger] items[i]),
        forall|i: int| 0 <= i < items.len() ==> cbor_depth(#[trigger] items[i]) <= d,
    ensures
        is_plutus(datum::list_json(items)),
        cbor_depth(datum::list_json(items)) <= d + 1,
        lowered(datum::list_json(items)) == datum::list_json(each_lowered(items)),
{
    lemma_members(0, Seq::empty(), items);
    lemma_each(items, d);
    let list = datum::jsons_to_cbor(items)->Ok_0;
    assert(datum::json_to_cbor(datum::list_json(items)) == Ok::<CborView, ErrorView>(
        CborView::Array(list),
    ));
}

/// A constructor of Plutus JSON is Plutus JSON.
proof fn lemma_constructor(n: u64, items: Seq<JsonView>, d: nat)
    requires
        forall|i: int| 0 <= i < items.len() ==> is_plutus(#[trigger] items[i]),
        forall|i: int| 0 <= i < items.len() ==> cbor_depth(#[trigger] items[i]) <= d,
    ensures
        is_plutus(datum::constructor_json(n as int, items)),
        cbor_depth(datum::constructor_json(n as int, items)) <= d + 3,
        lowered(datum::constructor_json(n as int, items)) == datum::constructor_json(
            n as int,
            each_lowered(items),
        ),
{
    lemma_constructor_members(n, items);
    lemma_each(items, d);
    let fields = datum::jsons_to_cbor(items)->Ok_0;
    assert(datum::json_to_cbor(datum::constructor_json(n as int, items)) == Ok::<
        CborView,
        ErrorView,
    >(datum::constructor_cbor(n, fields)));
    let list = CborView::Array(fields);
    assert(cbor::depth(list) <= d + 1);
    if n > 6 {
        let number = CborView::Integer(n as i128);
        let pair = seq![number, list];
        assert(cbor::depth(number) == 0);
        assert(pair.drop_last().drop_last().len() == 0);
        assert(cbor::items_depth(pair.drop_last().drop_last()) == 0);
        assert(cbor::items_depth(pair.drop_last()) == 0);
        assert(cbor::items_depth(pair) <= d + 1);
        assert(cbor::depth(CborView::Array(pair)) <= d + 2);
    }
}

/// An invoice with its owner in lowercase.
pub open spec fn lowered_invoice(v: InvoiceView) -> InvoiceView {
    InvoiceView { owner: base16::lowercase(v.owner), ..v }
}

/// An offramp with its byte strings in lowercase.
pub open spec fn lowered_offramp(v: OfframpView) -> OfframpView {
    OfframpView {
        payment_hash: base16::lowercase(v.payment_hash),
        refund_address: base16::lowercase(v.refund_address),
        ..v
    }
}

/// A pool state with its byte strings in lowercase.
pub open spec fn lowered_state(v: StateView) -> StateView {
    StateView {
        invoices: Seq::new(v.invoices.len(), |i: int| lowered_invoice(v.invoices[i])),
        offramps: Seq::new(v.offramps.len(), |i: int| lowered_offramp(v.offramps[i])),
        ..v
    }
}

/// Whether the byte strings of an invoice are hexadecimal.
pub open spec fn invoice_is_hex(v: InvoiceView) -> bool {
    base16::is_hex(v.owner)
}

/// Whether the byte strings of an offramp are hexadecimal.
pub open spec fn offramp_is_hex(v: OfframpView) -> bool {
    base16::is_hex(v.payment_hash) && base16::is_hex(v.refund_address)
}

/// Whether the byte strings of a pool state are hexadecimal.
pub open spec fn state_is_hex(v: StateView) -> bool {
    &&& forall|i: int| 0 <= i < v.invoices.len() ==> invoice_is_hex(#[trigger] v.invoices[i])
    &&& forall|i: int| 0 <= i < v.offramps.len() ==> offramp_is_hex(#[trigger] v.offramps[i])
}

/// Whether the byte strings of an action are hexadecimal.
pub open spec fn action_is_hex(v: ActionView) -> bool {
    match v {
        ActionView::CreateInvoice { owner, .. } => base16::is_hex(owner),
        ActionView::FulfillInvoice { invoice } => invoice_is_hex(invoice),
        ActionView::CreateOfframp { payment_hash, refund_address, .. } => base16::is_hex(
            payment_hash,
        ) && base16::is_hex(refund_address),
        ActionView::FulfillOfframp { offramp } => offramp_is_hex(offramp),
        _ => true,
    }
}

/// Whether the byte strings of a pool state are in lowercase.
pub open spec fn state_is_lowercase(v: StateView) -> bool {
    &&& forall|i: int|
        0 <= i < v.invoices.len() ==> base16::is_lowercase((#[trigger] v.invoices[i]).owner)
    &&& forall|i: int|
        0 <= i < v.offramps.len() ==> base16::is_lowercase(
            (#[trigger] v.offramps[i]).payment_hash,
        ) && base16::is_lowercase(v.offramps[i].refund_address)
}

/// A pool state in lowercase stays as it is: what its datum is read as is the state itself.
pub proof fn lemma_lowercase_state(v: StateView)
    requires
        state_is_lowercase(v),
    ensures
        lowered_state(v) == v,
{
    let w = lowered_state(v);
    assert forall|i: int| 0 <= i < v.invoices.len() implies w.invoices[i] == v.invoices[i] by {
        base16::lemma_lowercase(v.invoices[i].owner);
    }
    assert forall|i: int| 0 <= i < v.offramps.len() implies w.offramps[i] == v.offramps[i] by {
        base16::lemma_lowercase(v.offramps[i].payment_hash);
        base16::lemma_lowercase(v.offramps[i].refund_address);
    }
    assert(w.invoices =~= v.invoices);
    assert(w.offramps =~= v.offramps);
}

/// An invoice is read from its Plutus JSON as it was written.
pub proof fn lemma_invoice_json(v: InvoiceView)
    ensures
        types::invoice_of(datum::invoice_json(v)) == Ok::<InvoiceView, ErrorView>(v),
{
    let f = json::items_at(datum::invoice_json(v), "fields"@)->Some_0;
    lemma_constructor_members(0, f);
    lemma_members(v.invoice_id, v.owner, f);
    lemma_members(v.amount, v.owner, f);
    lemma_members(v.timestamp, v.owner, f);
    lemma_members(v.expires_at, v.owner, f);
}

/// An offramp is read from its Plutus JSON as it was written.
pub proof fn lemma_offramp_json(v: OfframpView)
    ensures
        types::offramp_of(datum::offramp_json(v)) == Ok::<OfframpView, ErrorView>(v),
{
    let f = json::items_at(datum::offramp_json(v), "fields"@)->Some_0;
    lemma_constructor_members(0, f);
    lemma_members(v.offramp_id, v.refund_address, f);
    lemma_members(v.amount, v.payment_hash, f);
    lemma_members(v.expires_at, v.payment_hash, f);
}

/// Invoices are read from their Plutus JSON as they were written.
proof fn lemma_invoices_json(invoices: Seq<InvoiceView>)
    ensures
        types::invoices_of(datum::invoices_json(invoices)) == Ok::<Seq<InvoiceView>, ErrorView>(
            invoices,
        ),
    decreases invoices.len(),
{
    if invoices.len() > 0 {
        lemma_invoices_json(invoices.drop_last());
        lemma_invoice_json(invoices.last());
        assert(datum::invoices_json(invoices).drop_last() =~= datum::invoices_json(
            invoices.drop_last(),
        ));
        assert(invoices.drop_last().push(invoices.last()) =~= invoices);
    } else {
        assert(invoices =~= Seq::empty());
    }
}

/// Offramps are read from their Plutus JSON as they were written.
proof fn lemma_offramps_json(offramps: Seq<OfframpView>)
    ensures
        types::offramps_of(datum::offramps_json(offramps)) == Ok::<Seq<OfframpView>, ErrorView>(
            offramps,
        ),
    decreases offramps.len(),
{
    if offramps.len() > 0 {
        lemma_offramps_json(offramps.drop_last());
        lemma_offramp_json(offramps.last());
        assert(datum::offramps_json(offramps).drop_last() =~= datum::offramps_json(
            offramps.drop_last(),
        ));
        assert(offramps.drop_last().push(offramps.last()) =~= offramps);
    } else {
        assert(offramps =~= Seq::empty());
    }
}

/// A pool state is read from its Plutus JSON as it was written.
pub proof fn lemma_state_json(v: StateView)
    ensures
        types::state_of(datum::state_json(v)) == Ok::<StateView, ErrorView>(v),
{
    let f = json::items_at(datum::state_json(v), "fields"@)->Some_0;
    let invoices = datum::invoices_json(v.invoices);
    let offramps = datum::offramps_json(v.offramps);
    lemma_constructor_members(0, f);
    lemma_members(v.total_liquidity, Seq::empty(), invoices);
    lemma_members(v.reserved, Seq::empty(), offramps);
    lemma_members(v.last_invoice_id, Seq::empty(), f);
    lemma_members(v.last_offramp_id, Seq::empty(), f);
    lemma_invoices_json(v.invoices);
    lemma_offramps_json(v.offramps);
}

/// The JSON of an invoice with a hexadecimal owner is Plutus JSON.
proof fn lemma_invoice_plutus(v: InvoiceView)
    requires
        invoice_is_hex(v),
    ensures
        is_plutus(datum::invoice_json(v)),
        cbor_depth(datum::invoice_json(v)) <= 3,
        lowered(datum::invoice_json(v)) == datum::invoice_json(lowered_invoice(v)),
{
    let fields = seq![
        datum::int_json(v.invoice_id),
        datum::int_json(v.amount),
        datum::bytes_json(v.owner),
        datum::int_json(v.timestamp),
        datum::int_json(v.expires_at),
    ];
    lemma_int(v.invoice_id);
    lemma_int(v.amount);
    lemma_bytes(v.owner);
    lemma_int(v.timestamp);
    lemma_int(v.expires_at);
    lemma_constructor(0, fields, 0);
    assert(each_lowered(fields) =~= seq![
        datum::int_json(v.invoice_id),
        datum::int_json(v.amount),
        datum::bytes_json(base16::lowercase(v.owner)),
        datum::int_json(v.timestamp),
        datum::int_json(v.expires_at),
    ]);
}

/// The JSON of an offramp with hexadecimal byte strings is Plutus JSON.
proof fn lemma_offramp_plutus(v: OfframpView)
    requires
        offramp_is_hex(v),
    ensures
        is_plutus(datum::offramp_json(v)),
        cbor_depth(datum::offramp_json(v)) <= 3,
        lowered(datum::offramp_json(v)) == datum::offramp_json(lowered_offramp(v)),
{
    let fields = seq![
        datum::int_json(v.offramp_id),
        datum::int_json(v.amount),
        datum::bytes_json(v.payment_hash),
        datum::bytes_json(v.refund_address),
        datum::int_json(v.expires_at),
    ];
    lemma_int(v.offramp_id);
    lemma_int(v.amount);
    lemma_bytes(v.payment_hash);
    lemma_bytes(v.refund_address);
    lemma_int(v.expires_at);
    lemma_constructor(0, fields, 0);
    assert(each_lowered(fields) =~= seq![
        datum::int_json(v.offramp_id),
        datum::int_json(v.amount),
        datum::bytes_json(base16::lowercase(v.payment_hash)),
        datum::bytes_json(base16::lowercase(v.refund_address)),
        datum::int_json(v.expires_at),
    ]);
}

/// The JSON of a pool state with hexadecimal byte strings is Plutus JSON, and a datum can
/// hold it.
pub proof fn lemma_state_plutus(v: StateView)
    requires
        state_is_hex(v),
    ensures
        is_plutus(datum::state_json(v)),
        cbor_depth(datum::state_json(v)) <= cbor::MAX_DEPTH,
        lowered(datum::state_json(v)) == datum::state_json(lowered_state(v)),
{
    let invoices = datum::invoices_json(v.invoices);
    let offramps = datum::offramps_json(v.offramps);
    assert forall|i: int| 0 <= i < invoices.len() implies is_plutus(#[trigger] invoices[i])
        && cbor_depth(invoices[i]) <= 3 && lowered(invoices[i]) == datum::invoice_json(
        lowered_invoice(v.invoices[i]),
    ) by {
        lemma_invoice_plutus(v.invoices[i]);
    }
    assert forall|i: int| 0 <= i < offramps.len() implies is_plutus(#[trigger] offramps[i])
        && cbor_depth(offramps[i]) <= 3 && lowered(offramps[i]) == datum::offramp_json(
        lowered_offramp(v.offramps[i]),
    ) by {
        lemma_offramp_plutus(v.offramps[i]);
    }
    lemma_list(invoices, 3);
    lemma_list(offramps, 3);
    let w = lowered_state(v);
    assert(each_lowered(invoices) =~= datum::invoices_json(w.invoices));
    assert(each_lowered(offramps) =~= datum::offramps_json(w.offramps));
    let fields = seq![
        datum::int_json(v.total_liquidity),
        datum::int_json(v.reserved),
        datum::int_json(v.last_invoice_id),
        datum::list_json(invoices),
        datum::int_json(v.last_offramp_id),
        datum::list_json(offramps),
    ];
    lemma_int(v.total_liquidity);
    lemma_int(v.reserved);
    lemma_int(v.last_invoice_id);
    lemma_int(v.last_offramp_id);
    lemma_constructor(0, fields, 4);
    assert(each_lowered(fields) =~= seq![
        datum::int_json(v.total_liquidity),
        datum::int_json(v.reserved),
        datum::int_json(v.last_invoice_id),
        datum::list_json(datum::invoices_json(w.invoices)),
        datum::int_json(v.last_offramp_id),
        datum::list_json(datum::offramps_json(w.offramps)),
    ]);
}

/// The JSON of an action with hexadecimal byte strings is Plutus JSON, and a redeemer can
/// hold it.
pub proof fn lemma_action_plutus(v: ActionView)
    requires
        action_is_hex(v),
    ensures
        is_plutus(datum::action_json(v)),
        cbor_depth(datum::action_json(v)) <= cbor::MAX_DEPTH,
{
    match v {
        ActionView::Deposit { amount } => {
            lemma_int(amount);
            lemma_constructor(0, seq![datum::int_json(amount)], 0);
        },
        ActionView::Withdraw { amount } => {
            lemma_int(amount);
            lemma_constructor(1, seq![datum::int_json(amount)], 0);
        },
        ActionView::CreateInvoice { amount, owner, timestamp, expires_at } => {
            lemma_int(amount);
            lemma_bytes(owner);
            lemma_int(timestamp);
            lemma_int(expires_at);
            lemma_constructor(
                2,
                seq![
                    datum::int_json(amount),
                    datum::bytes_json(owner),
                    datum::int_json(timestamp),
                    datum::int_json(expires_at),
                ],
                0,
            );
        },
        ActionView::FulfillInvoice { invoice } => {
            lemma_invoice_plutus(invoice);
            lemma_constructor(3, seq![datum::invoice_json(invoice)], 3);
        },
        ActionView::CancelInvoice { invoice_id } => {
            lemma_int(invoice_id);
            lemma_constructor(4, seq![datum::int_json(invoice_id)], 0);
        },
        ActionView::CreateOfframp { amount, payment_hash, refund_address, expires_at } => {
            lemma_int(amount);
            lemma_bytes(payment_hash);
            lemma_bytes(refund_address);
            lemma_int(expires_at);
            lemma_constructor(
                5,
                seq![
                    datum::int_json(amount),
                    datum::bytes_json(payment_hash),
                    datum::bytes_json(refund_address),
                    datum::int_json(expires_at),
                ],
                0,
            );
        },
        ActionView::FulfillOfframp { offramp } => {
            lemma_offramp_plutus(offramp);
            lemma_constructor(6, seq![datum::offramp_json(offramp)], 3);
        },
        ActionView::CancelOfframp { offramp_id } => {
            lemma_int(offramp_id);
            lemma_constructor(7, seq![datum::int_json(offramp_id)], 0);
        },
    }
}

/// The items of a list are those of its JSON.
proof fn lemma_fields(n: u64, a: Seq<JsonView>, m: u64, b: Seq<JsonView>)
    requires
        datum::constructor_json(n as int, a) == datum::constructor_json(m as int, b),
    ensures
        n == m,
        a == b,
{
    lemma_constructor_members(n, a);
    lemma_constructor_members(m, b);
}

/// The value of an item is that of its JSON.
proof fn lemma_values(n: i64, m: i64, s: Seq<char>, t: Seq<char>)
    ensures
        datum::int_json(n) == datum::int_json(m) ==> n == m,
        datum::bytes_json(s) == datum::bytes_json(t) ==> s == t,
{
    lemma_members(n, s, Seq::empty());
    lemma_members(m, t, Seq::empty());
}

/// A redeemer says which action it stands for: different actions have different JSON.
pub proof fn lemma_action_injective(a: ActionView, b: ActionView)
    requires
        datum::action_json(a) == datum::action_json(b),
    ensures
        a == b,
{
    let (n, f) = action_parts(a);
    let (m, g) = action_parts(b);
    lemma_fields(n, f, m, g);
    match (a, b) {
        (ActionView::Deposit { amount: x }, ActionView::Deposit { amount: y }) => {
            assert(f[0] == g[0]);
            lemma_values(x, y, Seq::empty(), Seq::empty());
        },
        (ActionView::Withdraw { amount: x }, ActionView::Withdraw { amount: y }) => {
            assert(f[0] == g[0]);
            lemma_values(x, y, Seq::empty(), Seq::empty());
        },
        (
            ActionView::CreateInvoice { amount: x, owner: o, timestamp: t, expires_at: e },
            ActionView::CreateInvoice { amount: y, owner: p, timestamp: u, expires_at: d },
        ) => {
            assert(f[0] == g[0] && f[1] == g[1] && f[2] == g[2] && f[3] == g[3]);
            lemma_values(x, y, o, p);
            lemma_values(t, u, o, p);
            lemma_values(e, d, o, p);
        },
        (
            ActionView::FulfillInvoice { invoice: x },
            ActionView::FulfillInvoice { invoice: y },
        ) => {
            assert(f[0] == g[0]);
            lemma_invoice_json(x);
            lemma_invoice_json(y);
        },
        (
            ActionView::CancelInvoice { invoice_id: x },
            ActionView::CancelInvoice { invoice_id: y },
        ) => {
            assert(f[0] == g[0]);
            lemma_values(x, y, Seq::empty(), Seq::empty());
        },
        (
            ActionView::CreateOfframp {
                amount: x,
                payment_hash: h,
                refund_address: r,
                expires_at: e,
            },
            ActionView::CreateOfframp {
                amount: y,
                payment_hash: k,
                refund_address: q,
                expires_at: d,
            },
        ) => {
            assert(f[0] == g[0] && f[1] == g[1] && f[2] == g[2] && f[3] == g[3]);
            lemma_values(x, y, h, k);
            lemma_values(e, d, r, q);
        },
        (
            ActionView::FulfillOfframp { offramp: x },
            ActionView::FulfillOfframp { offramp: y },
        ) => {
            assert(f[0] == g[0]);
            lemma_offramp_json(x);
            lemma_offramp_json(y);
        },
        (
            ActionView::CancelOfframp { offramp_id: x },
            ActionView::CancelOfframp { offramp_id: y },
        ) => {
            assert(f[0] == g[0]);
            lemma_values(x, y, Seq::empty(), Seq::empty());
        },
        _ => {},
    }
}

/// The constructor and the fields of the JSON of an action.
spec fn action_parts(v: ActionView) -> (u64, Seq<JsonView>) {
    let fields = json::items_at(datum::action_json(v), "fields"@)->Some_0;
    match v {
        ActionView::Deposit { .. } => (0, fields),
        ActionView::Withdraw { .. } => (1, fields),
        ActionView::CreateInvoice { .. } => (2, fields),
        ActionView::FulfillInvoice { .. } => (3, fields),
        ActionView::CancelInvoice { .. } => (4, fields),
        ActionView::CreateOfframp { .. } => (5, fields),
        ActionView::FulfillOfframp { .. } => (6, fields),
        ActionView::CancelOfframp { .. } => (7, fields),
    }
}

} // verus!

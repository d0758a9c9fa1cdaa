//! Where each value stands in Plutus JSON: what is written under which key and at which
//! place, and what is read from there.

use crate::error::ErrorView;
use crate::json::{JsonView, NumberView};
use crate::types::{ActionView, InvoiceView, OfframpView, StateView};
use crate::{datum, json, text, types};
use vstd::prelude::*;

verus! {

/// Whether a document is the number `n`.
pub open spec fn is_number(j: JsonView, n: int) -> bool {
    match j {
        JsonView::Number(NumberView::Unsigned(k)) => k == n,
        JsonView::Number(NumberView::Negative(k)) => k == n,
        _ => false,
    }
}

/// Whether a document is an object that has `key`.
pub open spec fn has_key(j: JsonView, key: Seq<char>) -> bool {
    j is Object && j->Object_0.contains_key(key)
}

/// Whether an object holds the number `n` under `int`.
pub open spec fn holds_int(j: JsonView, n: int) -> bool {
    has_key(j, "int"@) && is_number(j->Object_0["int"@], n)
}

/// Whether an object holds a string under `bytes`.
pub open spec fn holds_bytes(j: JsonView, hex: Seq<char>) -> bool {
    has_key(j, "bytes"@) && j->Object_0["bytes"@] == JsonView::Str(hex)
}

/// Whether an object holds an array under `list`.
pub open spec fn holds_list(j: JsonView, items: Seq<JsonView>) -> bool {
    has_key(j, "list"@) && j->Object_0["list"@] == JsonView::Array(items)
}

/// Whether an object holds an array under `fields`.
pub open spec fn holds_fields(j: JsonView, fields: Seq<JsonView>) -> bool {
    has_key(j, "fields"@) && j->Object_0["fields"@] == JsonView::Array(fields)
}

/// Whether a document holds an integer and nothing else.
pub open spec fn is_int(j: JsonView, n: int) -> bool {
    holds_int(j, n) && j->Object_0.dom() == set!["int"@]
}

/// Whether a document holds a byte string and nothing else.
pub open spec fn is_bytes(j: JsonView, hex: Seq<char>) -> bool {
    holds_bytes(j, hex) && j->Object_0.dom() == set!["bytes"@]
}

/// Whether a document holds a list and nothing else.
pub open spec fn is_list(j: JsonView, items: Seq<JsonView>) -> bool {
    holds_list(j, items) && j->Object_0.dom() == set!["list"@]
}

/// Whether a document holds the constructor `n`, its fields and nothing else.
pub open spec fn is_constructor(j: JsonView, n: int, fields: Seq<JsonView>) -> bool {
    &&& holds_fields(j, fields)
    &&& has_key(j, "constructor"@)
    &&& is_number(j->Object_0["constructor"@], n)
    &&& j->Object_0.dom() == set!["constructor"@, "fields"@]
}

/// The fields of a document.
pub open spec fn fields_of(j: JsonView) -> Seq<JsonView> {
    j->Object_0["fields"@]->Array_0
}

/// The items of a list.
pub open spec fn items_of(j: JsonView) -> Seq<JsonView> {
    j->Object_0["list"@]->Array_0
}

/// Whether fields are those of an invoice: its number, its amount, its owner, the time it
/// was made and the time it expires at, in this order.
pub open spec fn are_invoice_fields(f: Seq<JsonView>, v: InvoiceView) -> bool {
    &&& f.len() == 5
    &&& is_int(f[0], v.invoice_id as int)
    &&& is_int(f[1], v.amount as int)
    &&& is_bytes(f[2], v.owner)
    &&& is_int(f[3], v.timestamp as int)
    &&& is_int(f[4], v.expires_at as int)
}

/// Whether fields are those of an offramp: its number, its amount, the hash of its payment,
/// its address for refunds and the time it expires at, in this order.
pub open spec fn are_offramp_fields(f: Seq<JsonView>, v: OfframpView) -> bool {
    &&& f.len() == 5
    &&& is_int(f[0], v.offramp_id as int)
    &&& is_int(f[1], v.amount as int)
    &&& is_bytes(f[2], v.payment_hash)
    &&& is_bytes(f[3], v.refund_address)
    &&& is_int(f[4], v.expires_at as int)
}

/// Whether documents are invoices, one for one.
pub open spec fn are_invoices(items: Seq<JsonView>, invoices: Seq<InvoiceView>) -> bool {
    &&& items.len() == invoices.len()
    &&& forall|i: int|
        0 <= i < items.len() ==> {
            &&& is_constructor(#[trigger] items[i], 0, fields_of(items[i]))
            &&& are_invoice_fields(fields_of(items[i]), invoices[i])
        }
}

/// Whether documents are offramps, one for one.
pub open spec fn are_offramps(items: Seq<JsonView>, offramps: Seq<OfframpView>) -> bool {
    &&& items.len() == offramps.len()
    &&& forall|i: int|
        0 <= i < items.len() ==> {
            &&& is_constructor(#[trigger] items[i], 0, fields_of(items[i]))
            &&& are_offramp_fields(fields_of(items[i]), offramps[i])
        }
}

/// An invoice is written as constructor 0, with its number, its amount, its owner and its
/// two times in this order.
pub proof fn lemma_invoice_layout(v: InvoiceView)
    ensures
        is_constructor(datum::invoice_json(v), 0, fields_of(datum::invoice_json(v))),
        are_invoice_fields(fields_of(datum::invoice_json(v)), v),
{
    lemma_keys_differ();
    let j = datum::invoice_json(v);
    assert(j->Object_0.dom() =~= set!["constructor"@, "fields"@]);
    let f = fields_of(j);
    lemma_int_layout(v.invoice_id);
    lemma_int_layout(v.amount);
    lemma_bytes_layout(v.owner);
    lemma_int_layout(v.timestamp);
    lemma_int_layout(v.expires_at);
}

/// An offramp is written as constructor 0, with its number, its amount, the hash of its
/// payment, its address for refunds and its time in this order.
pub proof fn lemma_offramp_layout(v: OfframpView)
    ensures
        is_constructor(datum::offramp_json(v), 0, fields_of(datum::offramp_json(v))),
        are_offramp_fields(fields_of(datum::offramp_json(v)), v),
{
    lemma_keys_differ();
    let j = datum::offramp_json(v);
    assert(j->Object_0.dom() =~= set!["constructor"@, "fields"@]);
    lemma_int_layout(v.offramp_id);
    lemma_int_layout(v.amount);
    lemma_bytes_layout(v.payment_hash);
    lemma_bytes_layout(v.refund_address);
    lemma_int_layout(v.expires_at);
}

/// The keys of Plutus JSON differ, in their lengths already.
pub proof fn lemma_keys_differ()
    ensures
        "int"@.len() == 3,
        "bytes"@.len() == 5,
        "list"@.len() == 4,
        "constructor"@.len() == 11,
        "fields"@.len() == 6,
{
    reveal_strlit("int");
    reveal_strlit("bytes");
    reveal_strlit("list");
    reveal_strlit("constructor");
    reveal_strlit("fields");
}

/// An integer is written under `int`.
pub proof fn lemma_int_layout(n: i64)
    ensures
        is_int(datum::int_json(n), n as int),
{
    assert(datum::int_json(n)->Object_0.dom() =~= set!["int"@]);
}

/// A byte string is written under `bytes`.
pub proof fn lemma_bytes_layout(hex: Seq<char>)
    ensures
        is_bytes(datum::bytes_json(hex), hex),
{
    assert(datum::bytes_json(hex)->Object_0.dom() =~= set!["bytes"@]);
}

/// A pool state is written as constructor 0 of six fields: the total liquidity, the reserved
/// part, the last invoice number, the invoices, the last offramp number and the offramps.
pub proof fn lemma_state_layout(v: StateView)
    ensures
        ({
            let j = datum::state_json(v);
            let f = fields_of(j);
            &&& is_constructor(j, 0, f)
            &&& f.len() == 6
            &&& is_int(f[0], v.total_liquidity as int)
            &&& is_int(f[1], v.reserved as int)
            &&& is_int(f[2], v.last_invoice_id as int)
            &&& is_list(f[3], items_of(f[3]))
            &&& are_invoices(items_of(f[3]), v.invoices)
            &&& is_int(f[4], v.last_offramp_id as int)
            &&& is_list(f[5], items_of(f[5]))
            &&& are_offramps(items_of(f[5]), v.offramps)
        }),
{
    lemma_keys_differ();
    let j = datum::state_json(v);
    let f = fields_of(j);
    assert(j->Object_0.dom() =~= set!["constructor"@, "fields"@]);
    lemma_int_layout(v.total_liquidity);
    lemma_int_layout(v.reserved);
    lemma_int_layout(v.last_invoice_id);
    lemma_int_layout(v.last_offramp_id);
    assert(f[3]->Object_0.dom() =~= set!["list"@]);
    assert(f[5]->Object_0.dom() =~= set!["list"@]);
    assert forall|i: int| 0 <= i < v.invoices.len() implies {
        &&& is_constructor(#[trigger] items_of(f[3])[i], 0, fields_of(items_of(f[3])[i]))
        &&& are_invoice_fields(fields_of(items_of(f[3])[i]), v.invoices[i])
    } by {
        lemma_invoice_layout(v.invoices[i]);
    }
    assert forall|i: int| 0 <= i < v.offramps.len() implies {
        &&& is_constructor(#[trigger] items_of(f[5])[i], 0, fields_of(items_of(f[5])[i]))
        &&& are_offramp_fields(fields_of(items_of(f[5])[i]), v.offramps[i])
    } by {
        lemma_offramp_layout(v.offramps[i]);
    }
}

/// Whether a document is an action: its kind is the number of the constructor, and what it
/// is about stands in the fields.
pub open spec fn is_action(j: JsonView, v: ActionView) -> bool {
    let f = fields_of(j);
    match v {
        ActionView::Deposit { amount } => {
            &&& is_constructor(j, 0, f)
            &&& f.len() == 1
            &&& is_int(f[0], amount as int)
        },
        ActionView::Withdraw { amount } => {
            &&& is_constructor(j, 1, f)
            &&& f.len() == 1
            &&& is_int(f[0], amount as int)
        },
        ActionView::CreateInvoice { amount, owner, timestamp, expires_at } => {
            &&& is_constructor(j, 2, f)
            &&& f.len() == 4
            &&& is_int(f[0], amount as int)
            &&& is_bytes(f[1], owner)
            &&& is_int(f[2], timestamp as int)
            &&& is_int(f[3], expires_at as int)
        },
        ActionView::FulfillInvoice { invoice } => {
            &&& is_constructor(j, 3, f)
            &&& f.len() == 1
            &&& is_constructor(f[0], 0, fields_of(f[0]))
            &&& are_invoice_fields(fields_of(f[0]), invoice)
        },
        ActionView::CancelInvoice { invoice_id } => {
            &&& is_constructor(j, 4, f)
            &&& f.len() == 1
            &&& is_int(f[0], invoice_id as int)
        },
        ActionView::CreateOfframp { amount, payment_hash, refund_address, expires_at } => {
            &&& is_constructor(j, 5, f)
            &&& f.len() == 4
            &&& is_int(f[0], amount as int)
            &&& is_bytes(f[1], payment_hash)
            &&& is_bytes(f[2], refund_address)
            &&& is_int(f[3], expires_at as int)
        },
        ActionView::FulfillOfframp { offramp } => {
            &&& is_constructor(j, 6, f)
            &&& f.len() == 1
            &&& is_constructor(f[0], 0, fields_of(f[0]))
            &&& are_offramp_fields(fields_of(f[0]), offramp)
        },
        ActionView::CancelOfframp { offramp_id } => {
            &&& is_constructor(j, 7, f)
            &&& f.len() == 1
            &&& is_int(f[0], offramp_id as int)
        },
    }
}

/// An action is written under the constructor of its kind, with each of its values unchanged
/// in its own field.
pub proof fn lemma_action_layout(v: ActionView)
    ensures
        is_action(datum::action_json(v), v),
{
    lemma_keys_differ();
    let j = datum::action_json(v);
    assert(j->Object_0.dom() =~= set!["constructor"@, "fields"@]);
    match v {
        ActionView::Deposit { amount } => lemma_int_layout(amount),
        ActionView::Withdraw { amount } => lemma_int_layout(amount),
        ActionView::CreateInvoice { amount, owner, timestamp, expires_at } => {
            lemma_int_layout(amount);
            lemma_bytes_layout(owner);
            lemma_int_layout(timestamp);
            lemma_int_layout(expires_at);
        },
        ActionView::FulfillInvoice { invoice } => lemma_invoice_layout(invoice),
        ActionView::CancelInvoice { invoice_id } => lemma_int_layout(invoice_id),
        ActionView::CreateOfframp { amount, payment_hash, refund_address, expires_at } => {
            lemma_int_layout(amount);
            lemma_bytes_layout(payment_hash);
            lemma_bytes_layout(refund_address);
            lemma_int_layout(expires_at);
        },
        ActionView::FulfillOfframp { offramp } => lemma_offramp_layout(offramp),
        ActionView::CancelOfframp { offramp_id } => lemma_int_layout(offramp_id),
    }
}

/// A withdrawal is written as constructor 1 with one field, the amount itself.
pub proof fn lemma_withdraw_layout(amount: i64)
    ensures
        ({
            let j = datum::action_json(ActionView::Withdraw { amount });
            &&& is_number(j->Object_0["constructor"@], 1)
            &&& fields_of(j).len() == 1
            &&& is_number(fields_of(j)[0]->Object_0["int"@], amount as int)
        }),
{
    lemma_action_layout(ActionView::Withdraw { amount });
}

/// Whether an invoice can be read from a document: the first five fields are its number, its
/// amount, its owner, the time it was made and the time it expires at.
pub open spec fn reads_invoice(j: JsonView, v: InvoiceView) -> bool {
    let f = fields_of(j);
    &&& holds_fields(j, f)
    &&& f.len() >= 5
    &&& holds_int(f[0], v.invoice_id as int)
    &&& holds_int(f[1], v.amount as int)
    &&& holds_bytes(f[2], v.owner)
    &&& holds_int(f[3], v.timestamp as int)
    &&& holds_int(f[4], v.expires_at as int)
}

/// Whether an offramp can be read from a document: the first five fields are its number, its
/// amount, the hash of its payment, its address for refunds and the time it expires at.
pub open spec fn reads_offramp(j: JsonView, v: OfframpView) -> bool {
    let f = fields_of(j);
    &&& holds_fields(j, f)
    &&& f.len() >= 5
    &&& holds_int(f[0], v.offramp_id as int)
    &&& holds_int(f[1], v.amount as int)
    &&& holds_bytes(f[2], v.payment_hash)
    &&& holds_bytes(f[3], v.refund_address)
    &&& holds_int(f[4], v.expires_at as int)
}

/// Whether invoices can be read from documents, one for one.
pub open spec fn read_invoices(items: Seq<JsonView>, invoices: Seq<InvoiceView>) -> bool {
    &&& items.len() == invoices.len()
    &&& forall|i: int| 0 <= i < items.len() ==> reads_invoice(#[trigger] items[i], invoices[i])
}

/// Whether offramps can be read from documents, one for one.
pub open spec fn read_offramps(items: Seq<JsonView>, offramps: Seq<OfframpView>) -> bool {
    &&& items.len() == offramps.len()
    &&& forall|i: int| 0 <= i < items.len() ==> reads_offramp(#[trigger] items[i], offramps[i])
}

/// Whether a pool state can be read from a document: the first four fields are the total
/// liquidity, the reserved part, the last invoice number and the invoices; the fifth and the
/// sixth, where both are there, the last offramp number and the offramps.
pub open spec fn reads_state(j: JsonView, v: StateView) -> bool {
    let f = fields_of(j);
    &&& holds_fields(j, f)
    &&& f.len() >= 4
    &&& holds_int(f[0], v.total_liquidity as int)
    &&& holds_int(f[1], v.reserved as int)
    &&& holds_int(f[2], v.last_invoice_id as int)
    &&& holds_list(f[3], items_of(f[3]))
    &&& read_invoices(items_of(f[3]), v.invoices)
    &&& if f.len() >= 6 {
        &&& holds_int(f[4], v.last_offramp_id as int)
        &&& holds_list(f[5], items_of(f[5]))
        &&& read_offramps(items_of(f[5]), v.offramps)
    } else {
        v.last_offramp_id == 0 && v.offramps.len() == 0
    }
}

/// An integer is read exactly where an object holds it under `int`.
pub proof fn lemma_int_read(j: JsonView, n: i64)
    ensures
        holds_int(j, n as int) <==> datum::int_of(j) == Ok::<i64, ErrorView>(n),
{
}

/// A byte string is read exactly where an object holds it under `bytes`.
pub proof fn lemma_bytes_read(j: JsonView, hex: Seq<char>)
    ensures
        holds_bytes(j, hex) <==> datum::bytes_of(j) == Ok::<Seq<char>, ErrorView>(hex),
{
}

/// An invoice is read from exactly those documents that hold its values in their places.
pub proof fn lemma_invoice_read(j: JsonView, v: InvoiceView)
    ensures
        reads_invoice(j, v) <==> types::invoice_of(j) == Ok::<InvoiceView, ErrorView>(v),
{
    let f = fields_of(j);
    lemma_int_read(f[0], v.invoice_id);
    lemma_int_read(f[1], v.amount);
    lemma_bytes_read(f[2], v.owner);
    lemma_int_read(f[3], v.timestamp);
    lemma_int_read(f[4], v.expires_at);
}

/// An offramp is read from exactly those documents that hold its values in their places.
pub proof fn lemma_offramp_read(j: JsonView, v: OfframpView)
    ensures
        reads_offramp(j, v) <==> types::offramp_of(j) == Ok::<OfframpView, ErrorView>(v),
{
    let f = fields_of(j);
    lemma_int_read(f[0], v.offramp_id);
    lemma_int_read(f[1], v.amount);
    lemma_bytes_read(f[2], v.payment_hash);
    lemma_bytes_read(f[3], v.refund_address);
    lemma_int_read(f[4], v.expires_at);
}

/// Invoices are read one for one, in their order.
pub proof fn lemma_invoices_read(items: Seq<JsonView>, invoices: Seq<InvoiceView>)
    ensures
        read_invoices(items, invoices) <==> types::invoices_of(items) == Ok::<
            Seq<InvoiceView>,
            ErrorView,
        >(invoices),
    decreases items.len(),
{
    if items.len() == 0 {
        assert(read_invoices(items, invoices) ==> invoices =~= Seq::empty());
    } else {
        let before = items.drop_last();
        if read_invoices(items, invoices) {
            lemma_invoices_read(before, invoices.drop_last());
            lemma_invoice_read(items.last(), invoices.last());
            assert(reads_invoice(items[items.len() - 1], invoices[items.len() - 1]));
            assert(invoices.drop_last().push(invoices.last()) =~= invoices);
        }
        if types::invoices_of(items) == Ok::<Seq<InvoiceView>, ErrorView>(invoices) {
            let first = types::invoices_of(before)->Ok_0;
            let last = types::invoice_of(items.last())->Ok_0;
            lemma_invoices_read(before, first);
            lemma_invoice_read(items.last(), last);
            assert(invoices == first.push(last));
            assert forall|i: int| 0 <= i < items.len() implies reads_invoice(
                #[trigger] items[i],
                invoices[i],
            ) by {
                if i < before.len() {
                    assert(before[i] == items[i]);
                }
            }
        }
    }
}

/// Offramps are read one for one, in their order.
pub proof fn lemma_offramps_read(items: Seq<JsonView>, offramps: Seq<OfframpView>)
    ensures
        read_offramps(items, offramps) <==> types::offramps_of(items) == Ok::<
            Seq<OfframpView>,
            ErrorView,
        >(offramps),
    decreases items.len(),
{
    if items.len() == 0 {
        assert(read_offramps(items, offramps) ==> offramps =~= Seq::empty());
    } else {
        let before = items.drop_last();
        if read_offramps(items, offramps) {
            lemma_offramps_read(before, offramps.drop_last());
            lemma_offramp_read(items.last(), offramps.last());
            assert(reads_offramp(items[items.len() - 1], offramps[items.len() - 1]));
            assert(offramps.drop_last().push(offramps.last()) =~= offramps);
        }
        if types::offramps_of(items) == Ok::<Seq<OfframpView>, ErrorView>(offramps) {
            let first = types::offramps_of(before)->Ok_0;
            let last = types::offramp_of(items.last())->Ok_0;
            lemma_offramps_read(before, first);
            lemma_offramp_read(items.last(), last);
            assert(offramps == first.push(last));
            assert forall|i: int| 0 <= i < items.len() implies reads_offramp(
                #[trigger] items[i],
                offramps[i],
            ) by {
                if i < before.len() {
                    assert(before[i] == items[i]);
                }
            }
        }
    }
}

/// A pool state is read from exactly those documents that hold its values in their places.
pub proof fn lemma_state_read(j: JsonView, v: StateView)
    ensures
        reads_state(j, v) <==> types::state_of(j) == Ok::<StateView, ErrorView>(v),
{
    let f = fields_of(j);
    lemma_int_read(f[0], v.total_liquidity);
    lemma_int_read(f[1], v.reserved);
    lemma_int_read(f[2], v.last_invoice_id);
    lemma_invoices_read(items_of(f[3]), v.invoices);
    lemma_int_read(f[4], v.last_offramp_id);
    lemma_offramps_read(items_of(f[5]), v.offramps);
    assert(v.offramps.len() == 0 ==> v.offramps =~= Seq::empty());
}

/// Whether no integer can be read from a document.
pub open spec fn lacks_int(j: JsonView) -> bool {
    forall|n: i64| !holds_int(j, n as int)
}

/// Whether no byte string can be read from a document.
pub open spec fn lacks_bytes(j: JsonView) -> bool {
    forall|hex: Seq<char>| !holds_bytes(j, hex)
}

/// What is said of a document that holds no integer.
pub open spec fn no_int(j: JsonView) -> ErrorView {
    ErrorView::Parse("expected {\"int\": ...}, got "@ + json::json_text(j))
}

/// What is said of a document that holds no byte string.
pub open spec fn no_bytes(j: JsonView) -> ErrorView {
    ErrorView::Parse("expected {\"bytes\": ...}, got "@ + json::json_text(j))
}

/// A document without an integer is refused as such, and so is one without a byte string.
pub proof fn lemma_item_refused(j: JsonView)
    ensures
        lacks_int(j) <==> datum::int_of(j) == Err::<i64, ErrorView>(no_int(j)),
        lacks_int(j) <==> datum::int_of(j) is Err,
        lacks_bytes(j) <==> datum::bytes_of(j) == Err::<Seq<char>, ErrorView>(no_bytes(j)),
        lacks_bytes(j) <==> datum::bytes_of(j) is Err,
{
    if let Ok(n) = datum::int_of(j) {
        lemma_int_read(j, n);
    } else {
        assert forall|n: i64| !holds_int(j, n as int) by {
            lemma_int_read(j, n);
        }
    }
    if let Ok(hex) = datum::bytes_of(j) {
        lemma_bytes_read(j, hex);
    } else {
        assert forall|hex: Seq<char>| !holds_bytes(j, hex) by {
            lemma_bytes_read(j, hex);
        }
    }
}

/// A document that is no invoice is refused for its fields, for their number, or for the
/// first of them that is of another kind.
pub proof fn lemma_invoice_refused(j: JsonView)
    ensures
        types::invoice_of(j) matches Err(e) ==> {
            let f = fields_of(j);
            if !holds_fields(j, f) {
                e == ErrorView::Parse("Invoice: missing 'fields' array"@)
            } else if f.len() < 5 {
                e == ErrorView::Parse(
                    "Invoice: expected 5 fields, got "@ + text::decimal(f.len() as int),
                )
            } else if lacks_int(f[0]) {
                e == no_int(f[0])
            } else if lacks_int(f[1]) {
                e == no_int(f[1])
            } else if lacks_bytes(f[2]) {
                e == no_bytes(f[2])
            } else if lacks_int(f[3]) {
                e == no_int(f[3])
            } else {
                lacks_int(f[4]) && e == no_int(f[4])
            }
        },
{
    let f = fields_of(j);
    lemma_item_refused(f[0]);
    lemma_item_refused(f[1]);
    lemma_item_refused(f[2]);
    lemma_item_refused(f[3]);
    lemma_item_refused(f[4]);
}

/// A document that is no offramp is refused for its fields, for their number, or for the
/// first of them that is of another kind.
pub proof fn lemma_offramp_refused(j: JsonView)
    ensures
        types::offramp_of(j) matches Err(e) ==> {
            let f = fields_of(j);
            if !holds_fields(j, f) {
                e == ErrorView::Parse("Offramp: missing 'fields' array"@)
            } else if f.len() < 5 {
                e == ErrorView::Parse(
                    "Offramp: expected 5 fields, got "@ + text::decimal(f.len() as int),
                )
            } else if lacks_int(f[0]) {
                e == no_int(f[0])
            } else if lacks_int(f[1]) {
                e == no_int(f[1])
            } else if lacks_bytes(f[2]) {
                e == no_bytes(f[2])
            } else if lacks_bytes(f[3]) {
                e == no_bytes(f[3])
            } else {
                lacks_int(f[4]) && e == no_int(f[4])
            }
        },
{
    let f = fields_of(j);
    lemma_item_refused(f[0]);
    lemma_item_refused(f[1]);
    lemma_item_refused(f[2]);
    lemma_item_refused(f[3]);
    lemma_item_refused(f[4]);
}

/// Where some documents hold more than invoices, the first one that is none decides what is
/// said of all.
pub proof fn lemma_invoices_refused(items: Seq<JsonView>, k: int, e: ErrorView)
    requires
        0 <= k < items.len(),
        forall|i: int| 0 <= i < k ==> types::invoice_of(#[trigger] items[i]) is Ok,
        types::invoice_of(items[k]) == Err::<InvoiceView, ErrorView>(e),
    ensures
        types::invoices_of(items) == Err::<Seq<InvoiceView>, ErrorView>(e),
    decreases items.len(),
{
    if k < items.len() - 1 {
        lemma_invoices_refused(items.drop_last(), k, e);
    } else {
        let before = items.drop_last();
        let invoices = Seq::new(before.len(), |i: int| types::invoice_of(before[i])->Ok_0);
        assert forall|i: int| 0 <= i < before.len() implies reads_invoice(
            #[trigger] before[i],
            invoices[i],
        ) by {
            assert(before[i] == items[i]);
            lemma_invoice_read(before[i], invoices[i]);
        }
        lemma_invoices_read(before, invoices);
    }
}

/// Where some documents hold more than offramps, the first one that is none decides what is
/// said of all.
pub proof fn lemma_offramps_refused(items: Seq<JsonView>, k: int, e: ErrorView)
    requires
        0 <= k < items.len(),
        forall|i: int| 0 <= i < k ==> types::offramp_of(#[trigger] items[i]) is Ok,
        types::offramp_of(items[k]) == Err::<OfframpView, ErrorView>(e),
    ensures
        types::offramps_of(items) == Err::<Seq<OfframpView>, ErrorView>(e),
    decreases items.len(),
{
    if k < items.len() - 1 {
        lemma_offramps_refused(items.drop_last(), k, e);
    } else {
        let before = items.drop_last();
        let offramps = Seq::new(before.len(), |i: int| types::offramp_of(before[i])->Ok_0);
        assert forall|i: int| 0 <= i < before.len() implies reads_offramp(
            #[trigger] before[i],
            offramps[i],
        ) by {
            assert(before[i] == items[i]);
            lemma_offramp_read(before[i], offramps[i]);
        }
        lemma_offramps_read(before, offramps);
    }
}

/// A document that is no pool state is refused for its fields, for their number, for a list
/// that is missing, or for the first field that cannot be read.
pub proof fn lemma_state_refused(j: JsonView)
    ensures
        types::state_of(j) matches Err(e) ==> {
            let f = fields_of(j);
            if !holds_fields(j, f) {
                e == ErrorView::Parse("State: missing 'fields' array"@)
            } else if f.len() < 4 {
                e == ErrorView::Parse(
                    "State: expected 4 fields, got "@ + text::decimal(f.len() as int),
                )
            } else if !holds_list(f[3], items_of(f[3])) {
                e == ErrorView::Parse("State: field 3 should be a list of invoices"@)
            } else if f.len() >= 6 && !holds_list(f[5], items_of(f[5])) {
                e == ErrorView::Parse("State: field 5 should be a list of offramps"@)
            } else if lacks_int(f[0]) {
                e == no_int(f[0])
            } else if lacks_int(f[1]) {
                e == no_int(f[1])
            } else if lacks_int(f[2]) {
                e == no_int(f[2])
            } else if types::invoices_of(items_of(f[3])) is Err {
                types::invoices_of(items_of(f[3])) == Err::<Seq<InvoiceView>, ErrorView>(e)
            } else if lacks_int(f[4]) {
                f.len() >= 6 && e == no_int(f[4])
            } else {
                &&& f.len() >= 6
                &&& types::offramps_of(items_of(f[5])) == Err::<Seq<OfframpView>, ErrorView>(e)
            }
        },
{
    let f = fields_of(j);
    lemma_item_refused(f[0]);
    lemma_item_refused(f[1]);
    lemma_item_refused(f[2]);
    lemma_item_refused(f[4]);
}

} // verus!

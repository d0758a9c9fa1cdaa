//! What callers can rely on when they read and write documents: laws of the executable
//! functions themselves, over their arguments and their results.

use crate::cbor::Cbor;
use crate::error::{CardanoError, ErrorView};
use crate::json::{Json, JsonView};
use crate::tx_builder::Redeemer;
use crate::types::{Action, Invoice, Offramp, State};
use crate::{cbor, contract, datum, json, layout, models, round_trip, text, transactions, types};
use vstd::prelude::*;

verus! {

/// Whatever five fields a document has, the invoice that is read from it takes its number from
/// the first, its amount from the second, its owner from the third and its times from the
/// fourth and the fifth.
pub proof fn law_invoice_is_read(
    j: Json,
    f: Seq<JsonView>,
    a: i64,
    b: i64,
    s: Seq<char>,
    c: i64,
    d: i64,
    r: Result<Invoice, CardanoError>,
)
    requires
        call_ensures(Invoice::try_from, (&j,), r),
        layout::has_key(j@, "fields"@),
        j@->Object_0["fields"@] == JsonView::Array(f),
        f.len() >= 5,
        layout::has_key(f[0], "int"@) && layout::is_number(f[0]->Object_0["int"@], a as int),
        layout::has_key(f[1], "int"@) && layout::is_number(f[1]->Object_0["int"@], b as int),
        layout::has_key(f[2], "bytes"@) && f[2]->Object_0["bytes"@] == JsonView::Str(s),
        layout::has_key(f[3], "int"@) && layout::is_number(f[3]->Object_0["int"@], c as int),
        layout::has_key(f[4], "int"@) && layout::is_number(f[4]->Object_0["int"@], d as int),
    ensures
        r is Ok,
        r->Ok_0.invoice_id == a,
        r->Ok_0.amount == b,
        r->Ok_0.owner@ == s,
        r->Ok_0.timestamp == c,
        r->Ok_0.expires_at == d,
{
    let v = types::InvoiceView { invoice_id: a, amount: b, owner: s, timestamp: c, expires_at: d };
    layout::lemma_invoice_read(j@, v);
}

/// Whatever five fields a document has, the offramp that is read from it takes its number from
/// the first, its amount from the second, the hash of its payment from the third, its address
/// for refunds from the fourth and its time from the fifth.
pub proof fn law_offramp_is_read(
    j: Json,
    f: Seq<JsonView>,
    a: i64,
    b: i64,
    s: Seq<char>,
    t: Seq<char>,
    d: i64,
    r: Result<Offramp, CardanoError>,
)
    requires
        call_ensures(Offramp::try_from, (&j,), r),
        layout::has_key(j@, "fields"@),
        j@->Object_0["fields"@] == JsonView::Array(f),
        f.len() >= 5,
        layout::has_key(f[0], "int"@) && layout::is_number(f[0]->Object_0["int"@], a as int),
        layout::has_key(f[1], "int"@) && layout::is_number(f[1]->Object_0["int"@], b as int),
        layout::has_key(f[2], "bytes"@) && f[2]->Object_0["bytes"@] == JsonView::Str(s),
        layout::has_key(f[3], "bytes"@) && f[3]->Object_0["bytes"@] == JsonView::Str(t),
        layout::has_key(f[4], "int"@) && layout::is_number(f[4]->Object_0["int"@], d as int),
    ensures
        r is Ok,
        r->Ok_0.offramp_id == a,
        r->Ok_0.amount == b,
        r->Ok_0.payment_hash@ == s,
        r->Ok_0.refund_address@ == t,
        r->Ok_0.expires_at == d,
{
    let v = types::OfframpView {
        offramp_id: a,
        amount: b,
        payment_hash: s,
        refund_address: t,
        expires_at: d,
    };
    layout::lemma_offramp_read(j@, v);
}

/// A pool state that was read holds what the document holds: its numbers, and an invoice and
/// an offramp for each item of the two lists, in their order. Without the last two fields
/// there are no offramps.
pub proof fn law_state_is_read(j: Json, v: State)
    requires
        call_ensures(State::try_from, (&j,), Ok::<State, CardanoError>(v)),
    ensures
        ({
            let f = j@->Object_0["fields"@]->Array_0;
            let invoices = f[3]->Object_0["list"@]->Array_0;
            let offramps = f[5]->Object_0["list"@]->Array_0;
            &&& f.len() >= 4
            &&& layout::is_number(f[0]->Object_0["int"@], v.total_liquidity as int)
            &&& layout::is_number(f[1]->Object_0["int"@], v.reserved as int)
            &&& layout::is_number(f[2]->Object_0["int"@], v.last_invoice_id as int)
            &&& invoices.len() == v.invoices@.len()
            &&& forall|i: int|
                0 <= i < invoices.len() ==> {
                    let g = (#[trigger] invoices[i])->Object_0["fields"@]->Array_0;
                    &&& g.len() >= 5
                    &&& layout::is_number(
                        g[0]->Object_0["int"@],
                        v.invoices@[i].invoice_id as int,
                    )
                    &&& layout::is_number(g[1]->Object_0["int"@], v.invoices@[i].amount as int)
                    &&& g[2]->Object_0["bytes"@] == JsonView::Str(v.invoices@[i].owner@)
                    &&& layout::is_number(g[3]->Object_0["int"@], v.invoices@[i].timestamp as int)
                    &&& layout::is_number(
                        g[4]->Object_0["int"@],
                        v.invoices@[i].expires_at as int,
                    )
                }
            &&& f.len() < 6 ==> v.last_offramp_id == 0 && v.offramps@.len() == 0
            &&& f.len() >= 6 ==> {
                &&& layout::is_number(f[4]->Object_0["int"@], v.last_offramp_id as int)
                &&& offramps.len() == v.offramps@.len()
                &&& forall|i: int|
                    0 <= i < offramps.len() ==> {
                        let g = (#[trigger] offramps[i])->Object_0["fields"@]->Array_0;
                        &&& g.len() >= 5
                        &&& layout::is_number(
                            g[0]->Object_0["int"@],
                            v.offramps@[i].offramp_id as int,
                        )
                        &&& layout::is_number(g[1]->Object_0["int"@], v.offramps@[i].amount as int)
                        &&& g[2]->Object_0["bytes"@] == JsonView::Str(
                            v.offramps@[i].payment_hash@,
                        )
                        &&& g[3]->Object_0["bytes"@] == JsonView::Str(
                            v.offramps@[i].refund_address@,
                        )
                        &&& layout::is_number(
                            g[4]->Object_0["int"@],
                            v.offramps@[i].expires_at as int,
                        )
                    }
            }
        }),
{
    layout::lemma_state_read(j@, v@);
    let f = layout::fields_of(j@);
    let invoices = layout::items_of(f[3]);
    let offramps = layout::items_of(f[5]);
    assert forall|i: int| 0 <= i < invoices.len() implies layout::reads_invoice(
        #[trigger] invoices[i],
        v.invoices@[i]@,
    ) by {
        assert(v@.invoices[i] == v.invoices@[i]@);
    }
    if f.len() >= 6 {
        assert forall|i: int| 0 <= i < offramps.len() implies layout::reads_offramp(
            #[trigger] offramps[i],
            v.offramps@[i]@,
        ) by {
            assert(v@.offramps[i] == v.offramps@[i]@);
        }
    }
}

/// A document that holds a pool state in its fields is read, and nothing else is.
pub proof fn law_state_is_accepted(j: Json, r: Result<State, CardanoError>)
    requires
        call_ensures(State::try_from, (&j,), r),
    ensures
        r is Ok <==> exists|v: types::StateView| layout::reads_state(j@, v),
{
    if let Ok(v) = r {
        layout::lemma_state_read(j@, v@);
        assert(layout::reads_state(j@, v@));
    }
    if exists|v: types::StateView| layout::reads_state(j@, v) {
        let v = choose|v: types::StateView| layout::reads_state(j@, v);
        layout::lemma_state_read(j@, v);
    }
}

/// In the document of an invoice the first field is its number, the second its amount, the
/// third its owner, and the fourth and the fifth are its times.
pub proof fn law_invoice_is_written(v: Invoice, j: Json)
    requires
        call_ensures(datum::invoice_to_plutus_json, (&v,), j),
    ensures
        ({
            let f = j@->Object_0["fields"@]->Array_0;
            &&& layout::is_constructor(j@, 0, f)
            &&& f.len() == 5
            &&& layout::is_int(f[0], v.invoice_id as int)
            &&& layout::is_int(f[1], v.amount as int)
            &&& layout::is_bytes(f[2], v.owner@)
            &&& layout::is_int(f[3], v.timestamp as int)
            &&& layout::is_int(f[4], v.expires_at as int)
        }),
{
    layout::lemma_invoice_layout(v@);
}

/// In the document of an offramp the first field is its number, the second its amount, the
/// third the hash of its payment, the fourth its address for refunds and the fifth its time.
pub proof fn law_offramp_is_written(v: Offramp, j: Json)
    requires
        call_ensures(datum::offramp_to_plutus_json, (&v,), j),
    ensures
        ({
            let f = j@->Object_0["fields"@]->Array_0;
            &&& layout::is_constructor(j@, 0, f)
            &&& f.len() == 5
            &&& layout::is_int(f[0], v.offramp_id as int)
            &&& layout::is_int(f[1], v.amount as int)
            &&& layout::is_bytes(f[2], v.payment_hash@)
            &&& layout::is_bytes(f[3], v.refund_address@)
            &&& layout::is_int(f[4], v.expires_at as int)
        }),
{
    layout::lemma_offramp_layout(v@);
}

/// In the document of a pool state the six fields are the total liquidity, the reserved part,
/// the last invoice number, the documents of the invoices, the last offramp number and the
/// documents of the offramps.
pub proof fn law_state_is_written(v: State, j: Json)
    requires
        call_ensures(datum::state_to_plutus_json, (&v,), j),
    ensures
        ({
            let f = j@->Object_0["fields"@]->Array_0;
            let invoices = f[3]->Object_0["list"@]->Array_0;
            let offramps = f[5]->Object_0["list"@]->Array_0;
            &&& layout::is_constructor(j@, 0, f)
            &&& f.len() == 6
            &&& layout::is_int(f[0], v.total_liquidity as int)
            &&& layout::is_int(f[1], v.reserved as int)
            &&& layout::is_int(f[2], v.last_invoice_id as int)
            &&& layout::is_list(f[3], invoices)
            &&& invoices.len() == v.invoices@.len()
            &&& forall|i: int|
                0 <= i < invoices.len() ==> {
                    let g = (#[trigger] invoices[i])->Object_0["fields"@]->Array_0;
                    &&& layout::is_constructor(invoices[i], 0, g)
                    &&& g.len() == 5
                    &&& layout::is_int(g[0], v.invoices@[i].invoice_id as int)
                    &&& layout::is_int(g[1], v.invoices@[i].amount as int)
                    &&& layout::is_bytes(g[2], v.invoices@[i].owner@)
                    &&& layout::is_int(g[3], v.invoices@[i].timestamp as int)
                    &&& layout::is_int(g[4], v.invoices@[i].expires_at as int)
                }
            &&& layout::is_int(f[4], v.last_offramp_id as int)
            &&& layout::is_list(f[5], offramps)
            &&& offramps.len() == v.offramps@.len()
            &&& forall|i: int|
                0 <= i < offramps.len() ==> {
                    let g = (#[trigger] offramps[i])->Object_0["fields"@]->Array_0;
                    &&& layout::is_constructor(offramps[i], 0, g)
                    &&& g.len() == 5
                    &&& layout::is_int(g[0], v.offramps@[i].offramp_id as int)
                    &&& layout::is_int(g[1], v.offramps@[i].amount as int)
                    &&& layout::is_bytes(g[2], v.offramps@[i].payment_hash@)
                    &&& layout::is_bytes(g[3], v.offramps@[i].refund_address@)
                    &&& layout::is_int(g[4], v.offramps@[i].expires_at as int)
                }
        }),
{
    layout::lemma_state_layout(v@);
    let f = layout::fields_of(j@);
    let invoices = layout::items_of(f[3]);
    let offramps = layout::items_of(f[5]);
    assert forall|i: int| 0 <= i < invoices.len() implies layout::are_invoice_fields(
        layout::fields_of(#[trigger] invoices[i]),
        v.invoices@[i]@,
    ) by {
        assert(v@.invoices[i] == v.invoices@[i]@);
    }
    assert forall|i: int| 0 <= i < offramps.len() implies layout::are_offramp_fields(
        layout::fields_of(#[trigger] offramps[i]),
        v.offramps@[i]@,
    ) by {
        assert(v@.offramps[i] == v.offramps@[i]@);
    }
}

/// In the document of an action the number of the constructor says its kind, and the fields
/// are its values, unchanged.
pub proof fn law_action_is_written(v: Action, j: Json)
    requires
        call_ensures(datum::action_to_plutus_json, (&v,), j),
    ensures
        ({
            let f = j@->Object_0["fields"@]->Array_0;
            match v {
                Action::Deposit { amount } => {
                    &&& layout::is_constructor(j@, 0, f)
                    &&& f.len() == 1
                    &&& layout::is_int(f[0], amount as int)
                },
                Action::Withdraw { amount } => {
                    &&& layout::is_constructor(j@, 1, f)
                    &&& f.len() == 1
                    &&& layout::is_int(f[0], amount as int)
                },
                Action::CreateInvoice { amount, owner, timestamp, expires_at } => {
                    &&& layout::is_constructor(j@, 2, f)
                    &&& f.len() == 4
                    &&& layout::is_int(f[0], amount as int)
                    &&& layout::is_bytes(f[1], owner@)
                    &&& layout::is_int(f[2], timestamp as int)
                    &&& layout::is_int(f[3], expires_at as int)
                },
                Action::FulfillInvoice { invoice } => {
                    let g = f[0]->Object_0["fields"@]->Array_0;
                    &&& layout::is_constructor(j@, 3, f)
                    &&& f.len() == 1
                    &&& layout::is_constructor(f[0], 0, g)
                    &&& g.len() == 5
                    &&& layout::is_int(g[0], invoice.invoice_id as int)
                    &&& layout::is_int(g[1], invoice.amount as int)
                    &&& layout::is_bytes(g[2], invoice.owner@)
                    &&& layout::is_int(g[3], invoice.timestamp as int)
                    &&& layout::is_int(g[4], invoice.expires_at as int)
                },
                Action::CancelInvoice { invoice_id } => {
                    &&& layout::is_constructor(j@, 4, f)
                    &&& f.len() == 1
                    &&& layout::is_int(f[0], invoice_id as int)
                },
                Action::CreateOfframp { amount, payment_hash, refund_address, expires_at } => {
                    &&& layout::is_constructor(j@, 5, f)
                    &&& f.len() == 4
                    &&& layout::is_int(f[0], amount as int)
                    &&& layout::is_bytes(f[1], payment_hash@)
                    &&& layout::is_bytes(f[2], refund_address@)
                    &&& layout::is_int(f[3], expires_at as int)
                },
                Action::FulfillOfframp { offramp } => {
                    let g = f[0]->Object_0["fields"@]->Array_0;
                    &&& layout::is_constructor(j@, 6, f)
                    &&& f.len() == 1
                    &&& layout::is_constructor(f[0], 0, g)
                    &&& g.len() == 5
                    &&& layout::is_int(g[0], offramp.offramp_id as int)
                    &&& layout::is_int(g[1], offramp.amount as int)
                    &&& layout::is_bytes(g[2], offramp.payment_hash@)
                    &&& layout::is_bytes(g[3], offramp.refund_address@)
                    &&& layout::is_int(g[4], offramp.expires_at as int)
                },
                Action::CancelOfframp { offramp_id } => {
                    &&& layout::is_constructor(j@, 7, f)
                    &&& f.len() == 1
                    &&& layout::is_int(f[0], offramp_id as int)
                },
            }
        }),
{
    layout::lemma_action_layout(v@);
}

/// An integer and a byte string are read from under their own keys, and from nowhere else.
pub proof fn law_items_are_read(
    j: Json,
    n: Result<i64, CardanoError>,
    s: Result<String, CardanoError>,
)
    requires
        call_ensures(datum::plutus_int, (&j,), n),
        call_ensures(datum::plutus_bytes, (&j,), s),
    ensures
        match n {
            Ok(n) => layout::has_key(j@, "int"@) && layout::is_number(
                j@->Object_0["int"@],
                n as int,
            ),
            Err(e) => layout::lacks_int(j@) && e@ == ErrorView::Parse(
                "expected {\"int\": ...}, got "@ + json::json_text(j@),
            ),
        },
        match s {
            Ok(s) => layout::has_key(j@, "bytes"@) && j@->Object_0["bytes"@] == JsonView::Str(s@),
            Err(e) => layout::lacks_bytes(j@) && e@ == ErrorView::Parse(
                "expected {\"bytes\": ...}, got "@ + json::json_text(j@),
            ),
        },
{
    layout::lemma_item_refused(j@);
    if let Ok(n) = n {
        layout::lemma_int_read(j@, n);
    }
    if let Ok(s) = s {
        layout::lemma_bytes_read(j@, s@);
    }
}

/// A pool state that goes through its document, CBOR hex and back comes out as it went in,
/// with its byte strings in lowercase.
pub proof fn law_state_comes_back(
    v: State,
    j: Json,
    hex: Result<String, CardanoError>,
    text: &str,
    k: Result<Json, CardanoError>,
    w: Result<State, CardanoError>,
)
    requires
        round_trip::state_is_hex(v@),
        call_ensures(datum::state_to_plutus_json, (&v,), j),
        call_ensures(datum::plutus_json_to_cbor_hex, (&j,), hex),
        hex is Ok ==> text@ == hex->Ok_0@,
        call_ensures(datum::cbor_hex_to_plutus_json, (text,), k),
        hex is Ok && k is Ok ==> call_ensures(State::try_from, (&k->Ok_0,), w),
    ensures
        hex is Ok,
        k is Ok,
        w is Ok,
        transactions::is_lowered_state(w->Ok_0@, v@),
{
    round_trip::lemma_state_plutus(v@);
    round_trip::lemma_state_json(round_trip::lowered_state(v@));
    transactions::lemma_lowered_state(v@);
}

/// The datum of a pool state is read as that state, and the redeemer of an action as that
/// action under the fixed budget.
pub proof fn law_datum_and_redeemer(v: State, hex: String, a: Action, r: Redeemer)
    requires
        call_ensures(contract::datum_cbor, (&v,), hex),
        call_ensures(contract::redeemer_for, (&a,), r),
    ensures
        transactions::hex_is_state(hex@, v@),
        transactions::hex_is_action(r.data@, a@),
        r.mem == 800_000,
        r.steps == 400_000_000,
{
    transactions::lemma_data_are_read(hex@, v@, r.data@, a@);
}

/// CBOR items and documents are converted into each other as [`encoding`] says.
pub proof fn law_conversions(
    c: Cbor,
    to_json: Result<Json, CardanoError>,
    j: Json,
    to_cbor: Result<Cbor, CardanoError>,
)
    requires
        call_ensures(datum::cbor_to_plutus_json, (&c,), to_json),
        call_ensures(datum::plutus_json_to_cbor, (&j,), to_cbor),
    ensures
        match to_json {
            Ok(r) => datum::cbor_to_json(c@) == Ok::<JsonView, ErrorView>(r@),
            Err(e) => datum::cbor_to_json(c@) == Err::<JsonView, ErrorView>(e@),
        },
        match to_cbor {
            Ok(r) => datum::json_to_cbor(j@) == Ok::<cbor::CborView, ErrorView>(r@),
            Err(e) => datum::json_to_cbor(j@) == Err::<cbor::CborView, ErrorView>(e@),
        },
{
}

/// What is not reserved is the rest of the liquidity.
pub proof fn law_available(s: State, n: i64)
    requires
        call_ensures(State::available, (&s,), n),
    ensures
        n + s.reserved == s.total_liquidity,
{
}

/// The line of an invoice shows its number, its amount, its owner and its two times.
pub proof fn law_invoice_is_shown(v: Invoice, s: String)
    requires
        call_ensures(Invoice::to_text, (&v,), s),
    ensures
        s@ == "Invoice #"@ + text::decimal(v.invoice_id as int) + ": amount="@ + text::decimal(
            v.amount as int,
        ) + ", owner="@ + v.owner@ + ", ts="@ + text::decimal(v.timestamp as int) + ", expires="@
            + text::decimal(v.expires_at as int),
{
    models::lemma_invoice_text(v@);
}

/// The text of a pool state without invoices shows its numbers and what is not reserved. One
/// more invoice adds its line behind the others, and to the count of them.
pub proof fn law_state_is_shown(v: State, s: String)
    requires
        call_ensures(State::to_text, (&v,), s),
    ensures
        s@ == "Pool State:\n  total_liquidity: "@ + text::decimal(v.total_liquidity as int)
            + "\n  reserved:        "@ + text::decimal(v.reserved as int)
            + "\n  available:        "@ + text::decimal(v.total_liquidity - v.reserved)
            + "\n  last_invoice_id: "@ + text::decimal(v.last_invoice_id as int)
            + "\n  invoices:        "@ + text::decimal(v.invoices@.len() as int) + " active\n"@
            + types::invoice_lines(v@.invoices),
{
    if v.invoices@.len() > 0 {
        models::lemma_state_text(v@, v@.invoices[0]);
    }
}

/// The text of an error is its kind and its details.
pub proof fn law_error_is_shown(e: CardanoError, s: String)
    requires
        call_ensures(CardanoError::message, (&e,), s),
    ensures
        match e {
            CardanoError::Network(d) => s@ == "network error: "@ + d@,
            CardanoError::Parse(d) => s@ == "parse error: "@ + d@,
            CardanoError::NotFound(d) => s@ == "not found: "@ + d@,
        },
{
    models::lemma_error_model(e);
}

} // verus!

//! The models of values hold what the values hold, each part under its own name, and the
//! texts of values show it.

use crate::agent::{CardanoConfig, QueryStep};
use crate::cbor::Cbor;
use crate::contract::TxContext;
use crate::error::{CardanoError, ErrorView};
use crate::json::{Json, JsonView, Number, NumberView};
use crate::operator::{OperatorConfig, ScriptUtxo, ScriptUtxoInfo, Submission};
use crate::tx_builder::{Amount, Network, ProtocolParams, Redeemer, Utxo};
use crate::types::{Action, Invoice, InvoiceView, Offramp, State, StateView};
use crate::{cbor, error, json, layout, text, types};
use vstd::prelude::*;

verus! {

/// The model of an invoice.
pub proof fn lemma_invoice_model(v: Invoice)
    ensures
        v@.invoice_id == v.invoice_id,
        v@.amount == v.amount,
        v@.owner == v.owner@,
        v@.timestamp == v.timestamp,
        v@.expires_at == v.expires_at,
{
}

/// The model of an offramp.
pub proof fn lemma_offramp_model(v: Offramp)
    ensures
        v@.offramp_id == v.offramp_id,
        v@.amount == v.amount,
        v@.payment_hash == v.payment_hash@,
        v@.refund_address == v.refund_address@,
        v@.expires_at == v.expires_at,
{
}

/// The model of a pool state, with its invoices and its offramps in their order.
pub proof fn lemma_state_model(v: State)
    ensures
        v@.total_liquidity == v.total_liquidity,
        v@.reserved == v.reserved,
        v@.available() == v.total_liquidity - v.reserved,
        v@.last_invoice_id == v.last_invoice_id,
        v@.invoices.len() == v.invoices@.len(),
        forall|i: int|
            0 <= i < v.invoices@.len() ==> #[trigger] v@.invoices[i] == v.invoices@[i]@,
        v@.last_offramp_id == v.last_offramp_id,
        v@.offramps.len() == v.offramps@.len(),
        forall|i: int|
            0 <= i < v.offramps@.len() ==> #[trigger] v@.offramps[i] == v.offramps@[i]@,
{
}

/// The model of an action is of the same kind and about the same values.
pub proof fn lemma_action_model(v: Action)
    ensures
        match v {
            Action::Deposit { amount } => v@ is Deposit && v@->Deposit_amount == amount,
            Action::Withdraw { amount } => v@ is Withdraw && v@->Withdraw_amount == amount,
            Action::CreateInvoice { amount, owner, timestamp, expires_at } => {
                &&& v@ is CreateInvoice
                &&& v@->CreateInvoice_amount == amount
                &&& v@->CreateInvoice_owner == owner@
                &&& v@->CreateInvoice_timestamp == timestamp
                &&& v@->CreateInvoice_expires_at == expires_at
            },
            Action::FulfillInvoice { invoice } => v@ is FulfillInvoice && v@->invoice == invoice@,
            Action::CancelInvoice { invoice_id } => {
                v@ is CancelInvoice && v@->invoice_id == invoice_id
            },
            Action::CreateOfframp { amount, payment_hash, refund_address, expires_at } => {
                &&& v@ is CreateOfframp
                &&& v@->CreateOfframp_amount == amount
                &&& v@->payment_hash == payment_hash@
                &&& v@->refund_address == refund_address@
                &&& v@->CreateOfframp_expires_at == expires_at
            },
            Action::FulfillOfframp { offramp } => v@ is FulfillOfframp && v@->offramp == offramp@,
            Action::CancelOfframp { offramp_id } => {
                v@ is CancelOfframp && v@->offramp_id == offramp_id
            },
        },
{
}

/// The model of a document that is no object.
pub proof fn lemma_json_model(v: Json)
    ensures
        match v {
            Json::Null => v@ is Null,
            Json::Bool(b) => v@ == JsonView::Bool(b),
            Json::Number(Number::Unsigned(n)) => {
                v@ == JsonView::Number(NumberView::Unsigned(n))
            },
            Json::Number(Number::Negative(n)) => {
                v@ == JsonView::Number(NumberView::Negative(n))
            },
            Json::Number(Number::Other(s)) => v@ == JsonView::Number(NumberView::Other(s@)),
            Json::Str(s) => v@ == JsonView::Str(s@),
            Json::Array(items) => {
                &&& v@ is Array
                &&& v@->Array_0.len() == items@.len()
                &&& forall|i: int|
                    0 <= i < items@.len() ==> #[trigger] v@->Array_0[i] == items@[i]@
            },
            Json::Object(_) => v@ is Object,
        },
{
    if let Json::Array(items) = v {
        json::lemma_array_view(items@);
    }
}

/// The model of an object has exactly the keys of its entries. Where a key is listed more than
/// once, the last entry counts.
pub proof fn lemma_object_model(entries: Seq<(String, Json)>, key: Seq<char>, k: int)
    requires
        -1 <= k < entries.len(),
        k >= 0 ==> entries[k].0@ == key,
        forall|i: int| k < i < entries.len() ==> (#[trigger] entries[i]).0@ != key,
    ensures
        json::object_view(entries).contains_key(key) == (k >= 0),
        k >= 0 ==> json::object_view(entries)[key] == entries[k].1@,
    decreases entries.len(),
{
    if entries.len() > 0 && k < entries.len() - 1 {
        assert(entries[entries.len() - 1].0@ != key);
        lemma_object_model(entries.drop_last(), key, k);
    }
}

/// A document holds under a key what its object lists there.
pub proof fn lemma_member(j: JsonView, key: Seq<char>)
    ensures
        match json::member(j, key) {
            Some(v) => j is Object && j->Object_0.contains_key(key) && j->Object_0[key] == v,
            None => !(j is Object && j->Object_0.contains_key(key)),
        },
{
}

/// What is read of a document is what it is: an integer within its range, a string or an
/// array. Anything else is not read.
pub proof fn lemma_document_read(j: JsonView, n: i64, k: u64, s: Seq<char>, items: Seq<JsonView>)
    ensures
        json::integer(j) == Some(n) <==> layout::is_number(j, n as int),
        json::unsigned(j) == Some(k) <==> j == JsonView::Number(NumberView::Unsigned(k)),
        json::string(j) == Some(s) <==> j == JsonView::Str(s),
        json::items(j) == Some(items) <==> j == JsonView::Array(items),
{
}

/// A number is written with its value, and by its numeral where the machine cannot hold it.
pub proof fn lemma_number_written(n: int)
    ensures
        i64::MIN <= n <= u64::MAX ==> layout::is_number(json::number(n), n),
        0 <= n <= u64::MAX ==> json::number(n)->Number_0 is Unsigned,
        i64::MIN <= n < 0 ==> json::number(n)->Number_0 is Negative,
        !(i64::MIN <= n <= u64::MAX) ==> json::number(n) == JsonView::Number(
            NumberView::Other(text::decimal(n)),
        ),
{
}

/// The model of a CBOR item.
pub proof fn lemma_cbor_model(v: Cbor)
    ensures
        match v {
            Cbor::Integer(n) => v@ is Integer && v@->Integer_0 == n,
            Cbor::Bytes(b) => v@ is Bytes && v@->Bytes_0 == b@,
            Cbor::Float(s) => v@ is Float && v@->Float_0 == s@,
            Cbor::Text(s) => v@ is Text && v@->Text_0 == s@,
            Cbor::Bool(b) => v@ is Bool && v@->Bool_0 == b,
            Cbor::Null => v@ is Null,
            Cbor::Tag(tag, inner) => v@ is Tag && v@->Tag_0 == tag && *v@->Tag_1 == inner@,
            Cbor::Array(items) => {
                &&& v@ is Array
                &&& v@->Array_0.len() == items@.len()
                &&& forall|i: int|
                    0 <= i < items@.len() ==> #[trigger] v@->Array_0[i] == items@[i]@
            },
            Cbor::Entries(_) => v@ is Entries,
        },
{
    if let Cbor::Array(items) = v {
        cbor::lemma_items_view(items@);
    }
}

/// The model of an error is of the same kind, and the text of the error is its kind and its
/// details.
pub proof fn lemma_error_model(e: CardanoError)
    ensures
        match e {
            CardanoError::Network(s) => e@ == ErrorView::Network(s@) && error::error_text(e@)
                == "network error: "@ + s@,
            CardanoError::Parse(s) => e@ == ErrorView::Parse(s@) && error::error_text(e@)
                == "parse error: "@ + s@,
            CardanoError::NotFound(s) => e@ == ErrorView::NotFound(s@) && error::error_text(e@)
                == "not found: "@ + s@,
        },
{
}

/// The model of a result is that of its value or of its error.
pub proof fn lemma_outcome_model<T: View>(r: Result<T, CardanoError>)
    ensures
        r is Ok <==> error::outcome(r) is Ok,
        r matches Ok(v) ==> error::outcome(r)->Ok_0 == v@,
        r matches Err(e) ==> error::outcome(r)->Err_0 == e@,
{
}

/// The model of an amount and that of an unspent output.
pub proof fn lemma_utxo_model(a: Amount, u: Utxo)
    ensures
        a@.unit == a.unit@,
        a@.quantity == a.quantity@,
        u@.tx_hash == u.tx_hash@,
        u@.output_index == u.output_index,
        u@.address == u.address@,
        u@.amount.len() == u.amount@.len(),
        forall|i: int| 0 <= i < u.amount@.len() ==> #[trigger] u@.amount[i] == u.amount@[i]@,
{
}

/// The model of a network and that of a redeemer.
pub proof fn lemma_network_model(n: Network, r: Redeemer)
    ensures
        match n {
            Network::Mainnet => n@ is Mainnet,
            Network::Preprod => n@ is Preprod,
            Network::Preview => n@ is Preview,
            Network::Custom(models) => {
                &&& n@ is Custom
                &&& n@->Custom_0.len() == models@.len()
                &&& forall|i: int|
                    0 <= i < models@.len() ==> #[trigger] n@->Custom_0[i] == models@[i]@
            },
        },
        r@.data == r.data@,
        r@.mem == r.mem,
        r@.steps == r.steps,
{
}

/// The model of the protocol parameters.
pub proof fn lemma_protocol_model(p: ProtocolParams)
    ensures
        p@.epoch == p.epoch,
        p@.min_fee_a == p.min_fee_a,
        p@.min_fee_b == p.min_fee_b,
        p@.max_block_size == p.max_block_size,
        p@.max_tx_size == p.max_tx_size,
        p@.max_block_header_size == p.max_block_header_size,
        p@.key_deposit == p.key_deposit,
        p@.pool_deposit == p.pool_deposit,
        p@.decentralisation == p.decentralisation@,
        p@.min_pool_cost == p.min_pool_cost@,
        p@.price_mem == p.price_mem@,
        p@.price_step == p.price_step@,
        p@.max_tx_ex_mem == p.max_tx_ex_mem@,
        p@.max_tx_ex_steps == p.max_tx_ex_steps@,
        p@.max_block_ex_mem == p.max_block_ex_mem@,
        p@.max_block_ex_steps == p.max_block_ex_steps@,
        p@.max_val_size == p.max_val_size,
        p@.collateral_percent == p.collateral_percent@,
        p@.max_collateral_inputs == p.max_collateral_inputs,
        p@.coins_per_utxo_size == p.coins_per_utxo_size,
        p@.min_fee_ref_script_cost_per_byte == p.min_fee_ref_script_cost_per_byte,
{
}

/// The model of the context of a transaction.
pub proof fn lemma_context_model(ctx: TxContext)
    ensures
        ctx@.script_tx_hash == ctx.script_tx_hash@,
        ctx@.script_tx_index == ctx.script_tx_index,
        ctx@.script_lovelace == ctx.script_lovelace,
        ctx@.script_cbtc == ctx.script_cbtc,
        ctx@.script_address == ctx.script_address@,
        ctx@.script_cbor == ctx.script_cbor@,
        ctx@.operator_address == ctx.operator_address@,
        ctx@.operator_pkh == ctx.operator_pkh@,
        ctx@.operator_skey == ctx.operator_skey@,
        ctx@.cbtc_policy == ctx.cbtc_policy@,
        ctx@.cbtc_name == ctx.cbtc_name@,
        ctx@.cbtc_unit() == ctx.cbtc_policy@ + ctx.cbtc_name@,
        ctx@.wallet_utxos.len() == ctx.wallet_utxos@.len(),
        forall|i: int|
            0 <= i < ctx.wallet_utxos@.len() ==> #[trigger] ctx@.wallet_utxos[i]
                == ctx.wallet_utxos@[i]@,
        ctx@.network == ctx.network@,
        ctx.protocol_params is None <==> ctx@.protocol_params is None,
        ctx.protocol_params matches Some(p) ==> ctx@.protocol_params == Some(p@),
{
}

/// The models of the two configurations.
pub proof fn lemma_config_model(c: CardanoConfig, o: OperatorConfig)
    ensures
        c@.blockfrost_url == c.blockfrost_url@,
        c@.blockfrost_key == c.blockfrost_key@,
        c@.script_address == c.script_address@,
        o@.skey_hex == o.skey_hex@,
        o@.operator_address == o.operator_address@,
        o@.operator_pkh == o.operator_pkh@,
        o@.script_cbor == o.script_cbor@,
        o@.cbtc_policy == o.cbtc_policy@,
        o@.cbtc_name == o.cbtc_name@,
{
}

/// The models of the script output, alone and with the pool state, and of a submission.
pub proof fn lemma_script_utxo_model(u: ScriptUtxo, i: ScriptUtxoInfo, s: Submission)
    ensures
        u@.tx_hash == u.tx_hash@,
        u@.tx_index == u.tx_index,
        u@.lovelace == u.lovelace,
        u@.cbtc_amount == u.cbtc_amount,
        i@.tx_hash == i.tx_hash@,
        i@.tx_index == i.tx_index,
        i@.lovelace == i.lovelace,
        i@.cbtc_amount == i.cbtc_amount,
        i@.state == i.state@,
        s@.url == s.url@,
        s@.body == s.body@,
{
}

/// The model of a step of a query.
pub proof fn lemma_query_model(q: QueryStep)
    ensures
        match q {
            QueryStep::Done(Ok(state)) => q@ is Done && q@->Done_0 == Ok::<StateView, ErrorView>(
                state@,
            ),
            QueryStep::Done(Err(e)) => q@ is Done && q@->Done_0 == Err::<StateView, ErrorView>(e@),
            QueryStep::FetchDatum { index, data_hash } => {
                &&& q@ is FetchDatum
                &&& q@->index == index
                &&& q@->data_hash == data_hash@
            },
        },
{
}

/// The line of an invoice shows its number, its amount, its owner and its two times.
pub proof fn lemma_invoice_text(v: InvoiceView)
    ensures
        types::invoice_text(v) == "Invoice #"@ + text::decimal(v.invoice_id as int) + ": amount="@
            + text::decimal(v.amount as int) + ", owner="@ + v.owner + ", ts="@ + text::decimal(
            v.timestamp as int,
        ) + ", expires="@ + text::decimal(v.expires_at as int),
{
}

/// The text of a pool state begins with its numbers, among them what is not reserved and how
/// many invoices there are. Each invoice adds one line behind those before it.
pub proof fn lemma_state_text(v: StateView, invoice: InvoiceView)
    ensures
        types::invoice_lines(Seq::empty()).len() == 0,
        types::invoice_lines(v.invoices.push(invoice)) == types::invoice_lines(v.invoices)
            + "    - "@ + types::invoice_text(invoice) + "\n"@,
        types::state_text(v) == "Pool State:\n  total_liquidity: "@ + text::decimal(
            v.total_liquidity as int,
        ) + "\n  reserved:        "@ + text::decimal(v.reserved as int)
            + "\n  available:        "@ + text::decimal(v.total_liquidity - v.reserved)
            + "\n  last_invoice_id: "@ + text::decimal(v.last_invoice_id as int)
            + "\n  invoices:        "@ + text::decimal(v.invoices.len() as int) + " active\n"@
            + types::invoice_lines(v.invoices),
{
    assert(v.invoices.push(invoice).drop_last() =~= v.invoices);
}

} // verus!

//! What the transaction for a step holds: what it spends, what it makes, and where the cBTC
//! goes.

use crate::contract::ContextView;
use crate::error::ErrorView;
use crate::json::JsonView;
use crate::steps::StepView;
use crate::tx_builder::{AmountView, Draft, InputView, OutputView, ProtocolView, UtxoView};
use crate::types::{ActionView, InvoiceView, OfframpView, StateView};
use crate::{base16, contract, datum, json, layout, round_trip, text, tx_builder};
use vstd::prelude::*;

verus! {

/// The number that a quantity stands for. What is no number counts as zero.
pub open spec fn quantity_value(quantity: Seq<char>) -> int {
    match text::parse_u64(quantity) {
        Some(n) => n as int,
        None => match text::parse_i64(quantity) {
            Some(n) => n as int,
            None => 0,
        },
    }
}

/// How much of a unit some amounts hold together.
pub open spec fn held(amounts: Seq<AmountView>, unit: Seq<char>) -> int
    decreases amounts.len(),
{
    if amounts.len() == 0 {
        0
    } else {
        held(amounts.drop_last(), unit) + if amounts.last().unit == unit {
            quantity_value(amounts.last().quantity)
        } else {
            0
        }
    }
}

/// How much of a unit some outputs hold together.
pub open spec fn held_by_all(outputs: Seq<OutputView>, unit: Seq<char>) -> int
    decreases outputs.len(),
{
    if outputs.len() == 0 {
        0
    } else {
        held_by_all(outputs.drop_last(), unit) + held(outputs.last().amount, unit)
    }
}

/// Whether `low` is a byte string with its uppercase digits in lowercase.
pub open spec fn is_lowered_text(low: Seq<char>, s: Seq<char>) -> bool {
    &&& low.len() == s.len()
    &&& forall|i: int|
        0 <= i < s.len() ==> (#[trigger] low[i]) as int == if 65 <= s[i] as int <= 70 {
            s[i] as int + 32
        } else {
            s[i] as int
        }
}

/// Whether `low` is an invoice with its owner in lowercase.
pub open spec fn is_lowered_invoice(low: InvoiceView, v: InvoiceView) -> bool {
    &&& low.invoice_id == v.invoice_id
    &&& low.amount == v.amount
    &&& is_lowered_text(low.owner, v.owner)
    &&& low.timestamp == v.timestamp
    &&& low.expires_at == v.expires_at
}

/// Whether `low` is an offramp with its byte strings in lowercase.
pub open spec fn is_lowered_offramp(low: OfframpView, v: OfframpView) -> bool {
    &&& low.offramp_id == v.offramp_id
    &&& low.amount == v.amount
    &&& is_lowered_text(low.payment_hash, v.payment_hash)
    &&& is_lowered_text(low.refund_address, v.refund_address)
    &&& low.expires_at == v.expires_at
}

/// Whether `low` is a pool state with its byte strings in lowercase.
pub open spec fn is_lowered_state(low: StateView, v: StateView) -> bool {
    &&& low.total_liquidity == v.total_liquidity
    &&& low.reserved == v.reserved
    &&& low.last_invoice_id == v.last_invoice_id
    &&& low.invoices.len() == v.invoices.len()
    &&& forall|i: int|
        0 <= i < v.invoices.len() ==> is_lowered_invoice(#[trigger] low.invoices[i], v.invoices[i])
    &&& low.last_offramp_id == v.last_offramp_id
    &&& low.offramps.len() == v.offramps.len()
    &&& forall|i: int|
        0 <= i < v.offramps.len() ==> is_lowered_offramp(#[trigger] low.offramps[i], v.offramps[i])
}

/// Whether `low` is an action with its byte strings in lowercase.
pub open spec fn is_lowered_action(low: ActionView, v: ActionView) -> bool {
    match (low, v) {
        (ActionView::CreateInvoice { .. }, ActionView::CreateInvoice { .. }) => {
            &&& low->CreateInvoice_amount == v->CreateInvoice_amount
            &&& is_lowered_text(low->CreateInvoice_owner, v->CreateInvoice_owner)
            &&& low->CreateInvoice_timestamp == v->CreateInvoice_timestamp
            &&& low->CreateInvoice_expires_at == v->CreateInvoice_expires_at
        },
        (ActionView::FulfillInvoice { invoice: a }, ActionView::FulfillInvoice { invoice: b }) => {
            is_lowered_invoice(a, b)
        },
        (ActionView::CreateOfframp { .. }, ActionView::CreateOfframp { .. }) => {
            &&& low->CreateOfframp_amount == v->CreateOfframp_amount
            &&& is_lowered_text(low->payment_hash, v->payment_hash)
            &&& is_lowered_text(low->refund_address, v->refund_address)
            &&& low->CreateOfframp_expires_at == v->CreateOfframp_expires_at
        },
        (ActionView::FulfillOfframp { offramp: a }, ActionView::FulfillOfframp { offramp: b }) => {
            is_lowered_offramp(a, b)
        },
        _ => low == v,
    }
}

/// Whether CBOR hex is read as this action, with its byte strings in lowercase.
pub open spec fn hex_is_action(hex: Seq<char>, v: ActionView) -> bool {
    exists|low: ActionView| #[trigger]
        is_lowered_action(low, v) && datum::hex_to_json(hex) is Ok && layout::is_action(
            datum::hex_to_json(hex)->Ok_0,
            low,
        )
}

/// Whether CBOR hex is read as this pool state, with its byte strings in lowercase.
pub open spec fn hex_is_state(hex: Seq<char>, v: StateView) -> bool {
    exists|low: StateView| #[trigger]
        is_lowered_state(low, v) && datum::hex_to_json(hex) is Ok && layout::reads_state(
            datum::hex_to_json(hex)->Ok_0,
            low,
        )
}

/// Whether amounts list lovelace once, another unit once, and nothing else.
pub open spec fn lists_two(amounts: Seq<AmountView>, unit: Seq<char>) -> bool {
    &&& amounts.len() == 2
    &&& amounts[0].unit == "lovelace"@
    &&& amounts[1].unit == unit
}

/// Whether an input spends the script output of the context, with the script, its inline
/// datum, and the action as redeemer under the fixed budget.
pub open spec fn spends_script(ctx: ContextView, step: StepView, input: InputView) -> bool {
    &&& input.spent.tx_hash == ctx.script_tx_hash
    &&& input.spent.output_index == ctx.script_tx_index
    &&& input.spent.address == ctx.script_address
    &&& held(input.spent.amount, "lovelace"@) == ctx.script_lovelace
    &&& held(input.spent.amount, ctx.cbtc_policy + ctx.cbtc_name) == ctx.script_cbtc
    &&& lists_two(input.spent.amount, ctx.cbtc_policy + ctx.cbtc_name)
    &&& input.guarded
    &&& input.inline_datum
    &&& input.script == Some(ctx.script_cbor)
    &&& input.redeemer is Some
    &&& input.redeemer->Some_0.mem == 800_000
    &&& input.redeemer->Some_0.steps == 400_000_000
    &&& hex_is_action(input.redeemer->Some_0.data, step.action)
}

/// Whether an input spends an output of the wallet, which no script guards.
pub open spec fn spends_wallet(ctx: ContextView, input: InputView) -> bool {
    &&& ctx.wallet_utxos.contains(input.spent)
    &&& !input.guarded
    &&& !input.inline_datum
    &&& input.redeemer is None
    &&& input.script is None
}

/// Whether an output is the new script output: it stands at the script, its inline datum is
/// read as the next pool state, and it keeps the lovelace and holds the cBTC that is left.
pub open spec fn carries_state(ctx: ContextView, step: StepView, output: OutputView) -> bool {
    &&& output.address == ctx.script_address
    &&& output.inline_datum is Some
    &&& hex_is_state(output.inline_datum->Some_0, step.state)
    &&& held(output.amount, ctx.cbtc_policy + ctx.cbtc_name) == step.script_cbtc
    &&& held(output.amount, "lovelace"@) == ctx.script_lovelace
    &&& lists_two(output.amount, ctx.cbtc_policy + ctx.cbtc_name)
}

/// Whether an output pays `n` cBTC to an address, with two ADA beside it and no datum.
pub open spec fn pays(ctx: ContextView, address: Seq<char>, n: i64, output: OutputView) -> bool {
    &&& output.address == address
    &&& output.inline_datum is None
    &&& held(output.amount, ctx.cbtc_policy + ctx.cbtc_name) == n
    &&& held(output.amount, "lovelace"@) == 2_000_000
    &&& lists_two(output.amount, ctx.cbtc_policy + ctx.cbtc_name)
}

/// Whether an unspent output holds nothing but lovelace, and five ADA of it in one amount.
pub open spec fn is_five_ada(u: UtxoView) -> bool {
    &&& forall|i: int| 0 <= i < u.amount.len() ==> (#[trigger] u.amount[i]).unit == "lovelace"@
    &&& exists|i: int|
        0 <= i < u.amount.len() && quantity_value((#[trigger] u.amount[i]).quantity) >= 5_000_000
}

/// Whether `u` is the first output of the wallet with nothing but lovelace, five ADA of it in
/// one amount.
pub open spec fn is_first_five_ada(wallet: Seq<UtxoView>, u: UtxoView) -> bool {
    exists|i: int|
        {
            &&& 0 <= i < wallet.len()
            &&& #[trigger] wallet[i] == u
            &&& is_five_ada(u)
            &&& forall|j: int| 0 <= j < i ==> !is_five_ada(#[trigger] wallet[j])
        }
}

/// Whether the SDK calculates with the parameters of the context, the fractions among them
/// as doubles.
pub open spec fn same_parameters(p: Option<ProtocolView>, q: Option<ProtocolView>) -> bool {
    match (p, q) {
        (None, None) => true,
        (Some(p), Some(q)) => {
            &&& q.epoch == p.epoch
            &&& q.min_fee_a == p.min_fee_a
            &&& q.min_fee_b == p.min_fee_b
            &&& q.max_block_size == p.max_block_size
            &&& q.max_tx_size == p.max_tx_size
            &&& q.max_block_header_size == p.max_block_header_size
            &&& q.key_deposit == p.key_deposit
            &&& q.pool_deposit == p.pool_deposit
            &&& q.decentralisation == tx_builder::printed_fraction(p.decentralisation)
            &&& q.min_pool_cost == p.min_pool_cost
            &&& q.price_mem == tx_builder::printed_fraction(p.price_mem)
            &&& q.price_step == tx_builder::printed_fraction(p.price_step)
            &&& q.max_tx_ex_mem == p.max_tx_ex_mem
            &&& q.max_tx_ex_steps == p.max_tx_ex_steps
            &&& q.max_block_ex_mem == p.max_block_ex_mem
            &&& q.max_block_ex_steps == p.max_block_ex_steps
            &&& q.max_val_size == p.max_val_size
            &&& q.collateral_percent == tx_builder::printed_fraction(p.collateral_percent)
            &&& q.max_collateral_inputs == p.max_collateral_inputs
            &&& q.coins_per_utxo_size == p.coins_per_utxo_size
            &&& q.min_fee_ref_script_cost_per_byte == p.min_fee_ref_script_cost_per_byte
        },
        _ => false,
    }
}

/// How much cBTC a step pays out.
pub open spec fn paid_out(step: StepView) -> int {
    match step.payout {
        Some((_, n)) => n as int,
        None => 0,
    }
}

/// Whether a completed draft spends the script output once and else the wallet, carries the
/// next state, pays what the step pays out, and leaves the rest to the operator.
pub open spec fn is_transaction(ctx: ContextView, step: StepView, done: Draft) -> bool {
    &&& exists|i: int|
        0 <= i < done.inputs.len() && spends_script(ctx, step, #[trigger] done.inputs[i])
    &&& forall|i: int|
        0 <= i < done.inputs.len() ==> spends_script(ctx, step, #[trigger] done.inputs[i])
            || spends_wallet(ctx, done.inputs[i])
    &&& done.outputs.len() == if step.payout is Some {
        2int
    } else {
        1int
    }
    &&& carries_state(ctx, step, done.outputs[0])
    &&& step.payout matches Some((address, n)) ==> pays(ctx, address, n, done.outputs[1])
    &&& held_by_all(done.outputs, ctx.cbtc_policy + ctx.cbtc_name) == step.script_cbtc + paid_out(
        step,
    )
    &&& done.collaterals.len() == 1
    &&& is_first_five_ada(ctx.wallet_utxos, done.collaterals[0])
    &&& done.total_collateral is Some
    &&& quantity_value(done.total_collateral->Some_0) == 5_000_000
    &&& done.collateral_return == Some(ctx.operator_address)
    &&& done.change_address == ctx.operator_address
    &&& done.signers.len() == 1
    &&& done.signers[0] == ctx.operator_pkh
    &&& done.signing_keys.len() == 1
    &&& done.signing_keys[0] == ctx.operator_skey
    &&& done.network == Some(ctx.network)
    &&& same_parameters(ctx.protocol_params, done.protocol)
    &&& done.spare == ctx.wallet_utxos
    &&& done.threshold == 5_000_000
    &&& !done.guard_next
    &&& done.last_input is None
    &&& done.last_output is None
    &&& done.last_collateral is None
}

/// Whether `hex` is a transaction that was signed for a step.
pub open spec fn is_signed(ctx: ContextView, step: StepView, hex: Seq<char>) -> bool {
    exists|done: Draft| #[trigger]
        tx_builder::signs(done, Ok(hex)) && is_transaction(ctx, step, done)
}

/// Lowercase is letter for letter.
proof fn lemma_lowered_text(s: Seq<char>)
    ensures
        is_lowered_text(base16::lowercase(s), s),
{
}

/// What a pool state is in lowercase.
pub proof fn lemma_lowered_state(v: StateView)
    ensures
        is_lowered_state(round_trip::lowered_state(v), v),
{
    assert forall|i: int| 0 <= i < v.invoices.len() implies is_lowered_invoice(
        #[trigger] round_trip::lowered_state(v).invoices[i],
        v.invoices[i],
    ) by {
        lemma_lowered_text(v.invoices[i].owner);
    }
    assert forall|i: int| 0 <= i < v.offramps.len() implies is_lowered_offramp(
        #[trigger] round_trip::lowered_state(v).offramps[i],
        v.offramps[i],
    ) by {
        lemma_lowered_text(v.offramps[i].payment_hash);
        lemma_lowered_text(v.offramps[i].refund_address);
    }
}

/// An action with its byte strings in lowercase.
spec fn lowered_action(v: ActionView) -> ActionView {
    match v {
        ActionView::CreateInvoice { amount, owner, timestamp, expires_at } => {
            ActionView::CreateInvoice {
                amount,
                owner: base16::lowercase(owner),
                timestamp,
                expires_at,
            }
        },
        ActionView::FulfillInvoice { invoice } => ActionView::FulfillInvoice {
            invoice: round_trip::lowered_invoice(invoice),
        },
        ActionView::CreateOfframp { amount, payment_hash, refund_address, expires_at } => {
            ActionView::CreateOfframp {
                amount,
                payment_hash: base16::lowercase(payment_hash),
                refund_address: base16::lowercase(refund_address),
                expires_at,
            }
        },
        ActionView::FulfillOfframp { offramp } => ActionView::FulfillOfframp {
            offramp: round_trip::lowered_offramp(offramp),
        },
        _ => v,
    }
}

/// Documents are put in lowercase one by one.
proof fn lemma_all_lowered(items: Seq<JsonView>)
    ensures
        round_trip::all_lowered(items).len() == items.len(),
        forall|i: int|
            0 <= i < items.len() ==> #[trigger] round_trip::all_lowered(items)[i]
                == round_trip::lowered(items[i]),
    decreases items.len(),
{
    if items.len() > 0 {
        lemma_all_lowered(items.drop_last());
    }
}

/// What each kind of Plutus JSON is in lowercase.
proof fn lemma_lowered_items(n: i64, hex: Seq<char>, k: u64, fields: Seq<JsonView>)
    ensures
        round_trip::lowered(datum::int_json(n)) == datum::int_json(n),
        round_trip::lowered(datum::bytes_json(hex)) == datum::bytes_json(base16::lowercase(hex)),
        round_trip::lowered(datum::constructor_json(k as int, fields)) == datum::constructor_json(
            k as int,
            round_trip::all_lowered(fields),
        ),
{
    layout::lemma_keys_differ();
    let c = datum::constructor_json(k as int, fields);
    assert(json::integer_at(c, "int"@) is None);
    assert(json::string_at(c, "bytes"@) is None);
    assert(json::items_at(c, "list"@) is None);
    assert(json::unsigned_at(c, "constructor"@) == Some(k));
    assert(json::items_at(c, "fields"@) == Some(fields));
}

/// The JSON of an invoice in lowercase is that of the invoice in lowercase.
proof fn lemma_lowered_invoice_json(v: InvoiceView)
    ensures
        round_trip::lowered(datum::invoice_json(v)) == datum::invoice_json(
            round_trip::lowered_invoice(v),
        ),
{
    let f = layout::fields_of(datum::invoice_json(v));
    let g = layout::fields_of(datum::invoice_json(round_trip::lowered_invoice(v)));
    layout::lemma_invoice_layout(v);
    lemma_all_lowered(f);
    lemma_lowered_items(v.invoice_id, v.owner, 0, f);
    lemma_lowered_items(v.amount, v.owner, 0, f);
    lemma_lowered_items(v.timestamp, v.owner, 0, f);
    lemma_lowered_items(v.expires_at, v.owner, 0, f);
    assert(round_trip::all_lowered(f) =~= g);
}

/// The JSON of an offramp in lowercase is that of the offramp in lowercase.
proof fn lemma_lowered_offramp_json(v: OfframpView)
    ensures
        round_trip::lowered(datum::offramp_json(v)) == datum::offramp_json(
            round_trip::lowered_offramp(v),
        ),
{
    let f = layout::fields_of(datum::offramp_json(v));
    let g = layout::fields_of(datum::offramp_json(round_trip::lowered_offramp(v)));
    layout::lemma_offramp_layout(v);
    lemma_all_lowered(f);
    lemma_lowered_items(v.offramp_id, v.payment_hash, 0, f);
    lemma_lowered_items(v.amount, v.refund_address, 0, f);
    lemma_lowered_items(v.expires_at, v.payment_hash, 0, f);
    assert(round_trip::all_lowered(f) =~= g);
}

/// The JSON of an action in lowercase is that of the action in lowercase.
proof fn lemma_lowered_action(v: ActionView)
    ensures
        is_lowered_action(lowered_action(v), v),
        round_trip::lowered(datum::action_json(v)) == datum::action_json(lowered_action(v)),
{
    let f = layout::fields_of(datum::action_json(v));
    let g = layout::fields_of(datum::action_json(lowered_action(v)));
    layout::lemma_action_layout(v);
    lemma_all_lowered(f);
    let e = Seq::<char>::empty();
    match v {
        ActionView::Deposit { amount } => lemma_lowered_items(amount, e, 0, f),
        ActionView::Withdraw { amount } => lemma_lowered_items(amount, e, 1, f),
        ActionView::CreateInvoice { amount, owner, timestamp, expires_at } => {
            lemma_lowered_text(owner);
            lemma_lowered_items(amount, owner, 2, f);
            lemma_lowered_items(timestamp, owner, 2, f);
            lemma_lowered_items(expires_at, owner, 2, f);
        },
        ActionView::FulfillInvoice { invoice } => {
            lemma_lowered_text(invoice.owner);
            lemma_lowered_invoice_json(invoice);
            lemma_lowered_items(0, e, 3, f);
        },
        ActionView::CancelInvoice { invoice_id } => lemma_lowered_items(invoice_id, e, 4, f),
        ActionView::CreateOfframp { amount, payment_hash, refund_address, expires_at } => {
            lemma_lowered_text(payment_hash);
            lemma_lowered_text(refund_address);
            lemma_lowered_items(amount, payment_hash, 5, f);
            lemma_lowered_items(expires_at, refund_address, 5, f);
        },
        ActionView::FulfillOfframp { offramp } => {
            lemma_lowered_text(offramp.payment_hash);
            lemma_lowered_text(offramp.refund_address);
            lemma_lowered_offramp_json(offramp);
            lemma_lowered_items(0, e, 6, f);
        },
        ActionView::CancelOfframp { offramp_id } => lemma_lowered_items(offramp_id, e, 7, f),
    }
    assert(round_trip::all_lowered(f) =~= g);
}

/// A numeral stands for its number.
proof fn lemma_quantity(n: int)
    requires
        i64::MIN <= n <= u64::MAX,
    ensures
        quantity_value(text::decimal(n)) == n,
{
    if n >= 0 {
        text::lemma_u64_round_trip(n as u64);
    } else {
        text::lemma_i64_round_trip(n as i64);
        assert(text::decimal(n)[0] == '-');
        assert(!text::is_digit(text::decimal(n)[0]));
        assert(text::unsigned_part(text::decimal(n), '+') == text::decimal(n));
    }
}

/// How much of each unit two amounts hold.
proof fn lemma_pair_held(lovelace: u64, unit: Seq<char>, n: i64)
    requires
        unit != "lovelace"@,
    ensures
        held(contract::pair_of(lovelace as int, unit, n as int), "lovelace"@) == lovelace,
        held(contract::pair_of(lovelace as int, unit, n as int), unit) == n,
{
    let pair = contract::pair_of(lovelace as int, unit, n as int);
    lemma_quantity(lovelace as int);
    lemma_quantity(n as int);
    let first = pair.drop_last();
    assert(first.last() == pair[0]);
    assert(first.drop_last().len() == 0);
    assert(held(first.drop_last(), "lovelace"@) == 0);
    assert(held(first.drop_last(), unit) == 0);
    assert(held(first, "lovelace"@) == lovelace);
    assert(held(first, unit) == 0);
}

/// Five ADA in one amount are what collateral needs.
proof fn lemma_five_ada(u: UtxoView)
    ensures
        is_five_ada(u) == contract::is_collateral(u),
{
    assert forall|q: Seq<char>| (#[trigger] quantity_value(q) >= 5_000_000) == (
    match text::parse_u64(q) {
        Some(n) => n >= 5_000_000,
        None => false,
    }) by {
        if text::parse_u64(q) is None && text::parse_i64(q) is Some {
            assert(text::parse_i64(q)->Some_0 <= 0 || q[0] != '-');
        }
    }
    if is_five_ada(u) {
        let i = choose|i: int|
            0 <= i < u.amount.len() && quantity_value((#[trigger] u.amount[i]).quantity)
                >= 5_000_000;
        assert(text::parse_u64(u.amount[i].quantity) is Some);
    }
    if contract::is_collateral(u) {
        let i = choose|i: int|
            0 <= i < u.amount.len() && match text::parse_u64((#[trigger] u.amount[i]).quantity) {
                Some(n) => n >= 5_000_000,
                None => false,
            };
        assert(quantity_value(u.amount[i].quantity) >= 5_000_000);
    }
}

/// The collateral is the first output of the wallet that holds nothing but lovelace, five ADA
/// of it in one amount; without one there is no collateral.
pub proof fn lemma_collateral_is_five_ada(wallet: Seq<UtxoView>)
    ensures
        match contract::first_collateral(wallet) {
            Some(u) => is_first_five_ada(wallet, u),
            None => forall|j: int| 0 <= j < wallet.len() ==> !is_five_ada(#[trigger] wallet[j]),
        },
{
    contract::lemma_first_collateral(wallet);
    assert forall|j: int| 0 <= j < wallet.len() implies is_five_ada(#[trigger] wallet[j])
        == contract::is_collateral(wallet[j]) by {
        lemma_five_ada(wallet[j]);
    }
    if let Some(u) = contract::first_collateral(wallet) {
        let i = choose|i: int|
            0 <= i < wallet.len() && #[trigger] wallet[i] == u && contract::is_collateral(u)
                && forall|j: int| 0 <= j < i ==> !contract::is_collateral(#[trigger] wallet[j]);
        assert(wallet[i] == u && is_five_ada(u));
        assert forall|j: int| 0 <= j < i implies !is_five_ada(#[trigger] wallet[j]) by {}
    }
}

/// A datum that reads back is that of its state, and a redeemer that of its action.
pub proof fn lemma_data_are_read(
    state_hex: Seq<char>,
    state: StateView,
    action_hex: Seq<char>,
    action: ActionView,
)
    requires
        contract::datum_reads(state_hex, round_trip::lowered_state(state)),
        contract::redeemer_reads(action_hex, action),
    ensures
        hex_is_state(state_hex, state),
        hex_is_action(action_hex, action),
{
    let low = round_trip::lowered_state(state);
    lemma_lowered_state(state);
    layout::lemma_state_read(datum::hex_to_json(state_hex)->Ok_0, low);
    assert(is_lowered_state(low, state));
    lemma_lowered_action(action);
    layout::lemma_action_layout(lowered_action(action));
    assert(is_lowered_action(lowered_action(action), action));
}

/// The input for the script output is what the step asks for.
proof fn lemma_script_input(ctx: ContextView, step: StepView)
    requires
        ctx.cbtc_policy + ctx.cbtc_name != "lovelace"@,
        contract::redeemer_reads(
            contract::script_input(ctx, step).redeemer->Some_0.data,
            step.action,
        ),
    ensures
        spends_script(ctx, step, contract::script_input(ctx, step)),
{
    let input = contract::script_input(ctx, step);
    lemma_pair_held(ctx.script_lovelace, ctx.cbtc_policy + ctx.cbtc_name, ctx.script_cbtc);
    lemma_lowered_action(step.action);
    layout::lemma_action_layout(lowered_action(step.action));
    assert(hex_is_action(input.redeemer->Some_0.data, step.action));
}

/// The new script output is what the step asks for.
proof fn lemma_script_output(ctx: ContextView, step: StepView)
    requires
        ctx.cbtc_policy + ctx.cbtc_name != "lovelace"@,
        contract::datum_reads(
            contract::script_output(ctx, step).inline_datum->Some_0,
            round_trip::lowered_state(step.state),
        ),
    ensures
        carries_state(ctx, step, contract::script_output(ctx, step)),
{
    let hex = contract::script_output(ctx, step).inline_datum->Some_0;
    let low = round_trip::lowered_state(step.state);
    lemma_pair_held(ctx.script_lovelace, ctx.cbtc_policy + ctx.cbtc_name, step.script_cbtc);
    lemma_lowered_state(step.state);
    layout::lemma_state_read(datum::hex_to_json(hex)->Ok_0, low);
    assert(is_lowered_state(low, step.state));
    assert(hex_is_state(hex, step.state));
}

/// The outputs hold what the step asks for.
proof fn lemma_outputs(ctx: ContextView, step: StepView, collateral: UtxoView)
    requires
        ctx.cbtc_policy + ctx.cbtc_name != "lovelace"@,
        carries_state(ctx, step, contract::script_output(ctx, step)),
    ensures
        ({
            let outputs = contract::contract_draft(ctx, step, collateral).all_outputs();
            &&& outputs.len() == if step.payout is Some {
                2int
            } else {
                1int
            }
            &&& carries_state(ctx, step, outputs[0])
            &&& step.payout matches Some((address, n)) ==> pays(ctx, address, n, outputs[1])
            &&& held_by_all(outputs, ctx.cbtc_policy + ctx.cbtc_name) == step.script_cbtc
                + paid_out(step)
        }),
{
    let outputs = contract::contract_draft(ctx, step, collateral).all_outputs();
    let unit = ctx.cbtc_policy + ctx.cbtc_name;
    let output = contract::script_output(ctx, step);
    assert(seq![output].drop_last().len() == 0);
    assert(held_by_all(seq![output].drop_last(), unit) == 0);
    assert(seq![output].last() == output);
    assert(held_by_all(seq![output], unit) == step.script_cbtc);
    match step.payout {
        Some((address, n)) => {
            let payout = contract::payout_output(ctx, address, n);
            lemma_pair_held(2_000_000, unit, n);
            assert(outputs =~= seq![output, payout]);
            assert(outputs.drop_last() =~= seq![output]);
            assert(pays(ctx, address, n, outputs[1]));
        },
        None => {
            assert(outputs =~= seq![output]);
        },
    }
}

/// The inputs are the script output and outputs of the wallet.
proof fn lemma_inputs(ctx: ContextView, step: StepView, collateral: UtxoView, done: Draft)
    requires
        spends_script(ctx, step, contract::script_input(ctx, step)),
        tx_builder::is_completion(contract::contract_draft(ctx, step, collateral), done),
    ensures
        exists|i: int|
            0 <= i < done.inputs.len() && spends_script(ctx, step, #[trigger] done.inputs[i]),
        forall|i: int|
            0 <= i < done.inputs.len() ==> spends_script(ctx, step, #[trigger] done.inputs[i])
                || spends_wallet(ctx, done.inputs[i]),
{
    let d = contract::contract_draft(ctx, step, collateral);
    let input = contract::script_input(ctx, step);
    assert(d.all_inputs() =~= seq![input]);
    assert(done.inputs.contains(d.all_inputs()[0]));
    let at = choose|i: int| 0 <= i < done.inputs.len() && done.inputs[i] == input;
    assert(spends_script(ctx, step, done.inputs[at]));
    assert forall|i: int| 0 <= i < done.inputs.len() implies spends_script(
        ctx,
        step,
        #[trigger] done.inputs[i],
    ) || spends_wallet(ctx, done.inputs[i]) by {
        if d.all_inputs().contains(done.inputs[i]) {
            let k = choose|k: int|
                0 <= k < d.all_inputs().len() && d.all_inputs()[k] == done.inputs[i];
            assert(k == 0);
        } else {
            let j = choose|j: int|
                0 <= j < d.spare.len() && done.inputs[i] == tx_builder::wallet_input(
                    #[trigger] d.spare[j],
                );
            assert(ctx.wallet_utxos[j] == done.inputs[i].spent);
        }
    }
}

/// What the draft for a step is completed to holds what the step asks for.
proof fn lemma_completed(ctx: ContextView, step: StepView, done: Draft)
    requires
        ctx.cbtc_policy + ctx.cbtc_name != "lovelace"@,
        contract::first_collateral(ctx.wallet_utxos) is Some,
        contract::datum_reads(
            contract::script_output(ctx, step).inline_datum->Some_0,
            round_trip::lowered_state(step.state),
        ),
        contract::redeemer_reads(
            contract::script_input(ctx, step).redeemer->Some_0.data,
            step.action,
        ),
        tx_builder::is_completion(
            contract::contract_draft(
                ctx,
                step,
                contract::first_collateral(ctx.wallet_utxos)->Some_0,
            ),
            done,
        ),
    ensures
        is_transaction(ctx, step, done),
{
    let collateral = contract::first_collateral(ctx.wallet_utxos)->Some_0;
    lemma_script_input(ctx, step);
    lemma_script_output(ctx, step);
    lemma_inputs(ctx, step, collateral, done);
    lemma_outputs(ctx, step, collateral);
    assert(contract::contract_draft(ctx, step, collateral).all_collaterals() =~= seq![collateral]);
    lemma_collateral_is_five_ada(ctx.wallet_utxos);
    lemma_five_million();
}

/// Five million in digits.
proof fn lemma_five_million()
    ensures
        quantity_value("5000000"@) == 5_000_000,
{
    reveal_strlit("5000000");
    let s = "5000000"@;
    assert(text::unsigned_part(s, '+') == s);
    assert(s.drop_last().drop_last().drop_last().drop_last().drop_last().drop_last().drop_last()
        =~= Seq::empty());
    reveal_with_fuel(text::digits_value, 8);
    assert(text::is_digits(s));
}

/// Every transaction that was signed for a step spends the script output with the action of
/// the step, and beside it only outputs of the wallet. It makes an output at the script whose
/// inline datum is read as the next pool state and that holds the cBTC that is left, and it
/// pays the payout of the step to its address. No other output holds cBTC.
pub proof fn lemma_transaction_contents(ctx: ContextView, step: StepView, hex: Seq<char>)
    requires
        contract::step_yields(ctx, step, Ok(hex)),
        ctx.cbtc_policy + ctx.cbtc_name != "lovelace"@,
    ensures
        is_signed(ctx, step, hex),
{
    let d = contract::contract_draft(
        ctx,
        step,
        contract::first_collateral(ctx.wallet_utxos)->Some_0,
    );
    let done = choose|done: Draft|
        tx_builder::is_completion(d, done) && #[trigger] tx_builder::completes(d, Ok(done))
            && tx_builder::signs(done, Ok(hex));
    lemma_completed(ctx, step, done);
    assert(tx_builder::signs(done, Ok(hex)));
}

/// Every transaction that was signed for a step makes an output at the address of the script
/// whose inline datum is read as the next pool state, and which holds exactly the cBTC that
/// the step leaves there.
pub proof fn lemma_state_output(ctx: ContextView, step: StepView, hex: Seq<char>)
    requires
        contract::step_yields(ctx, step, Ok(hex)),
        ctx.cbtc_policy + ctx.cbtc_name != "lovelace"@,
    ensures
        exists|done: Draft, j: int|
            {
                &&& #[trigger] tx_builder::signs(done, Ok(hex))
                &&& 0 <= j < done.outputs.len()
                &&& (#[trigger] done.outputs[j]).address == ctx.script_address
                &&& done.outputs[j].inline_datum is Some
                &&& hex_is_state(done.outputs[j].inline_datum->Some_0, step.state)
                &&& held(done.outputs[j].amount, ctx.cbtc_policy + ctx.cbtc_name)
                    == step.script_cbtc
            },
{
    lemma_transaction_contents(ctx, step, hex);
    let done = choose|done: Draft| #[trigger]
        tx_builder::signs(done, Ok(hex)) && is_transaction(ctx, step, done);
    assert(carries_state(ctx, step, done.outputs[0]));
}

/// Every transaction that was signed for a step that pays out has an output at that address
/// with exactly that much cBTC, and all outputs together hold what the step leaves at the
/// script and what it pays out.
pub proof fn lemma_payout_output(ctx: ContextView, step: StepView, hex: Seq<char>)
    requires
        contract::step_yields(ctx, step, Ok(hex)),
        ctx.cbtc_policy + ctx.cbtc_name != "lovelace"@,
        step.payout is Some,
    ensures
        exists|done: Draft, j: int|
            {
                &&& #[trigger] tx_builder::signs(done, Ok(hex))
                &&& 0 <= j < done.outputs.len()
                &&& (#[trigger] done.outputs[j]).address == step.payout->Some_0.0
                &&& held(done.outputs[j].amount, ctx.cbtc_policy + ctx.cbtc_name)
                    == step.payout->Some_0.1
                &&& held(done.outputs[j].amount, "lovelace"@) == 2_000_000
                &&& held_by_all(done.outputs, ctx.cbtc_policy + ctx.cbtc_name)
                    == step.script_cbtc + step.payout->Some_0.1
            },
{
    lemma_transaction_contents(ctx, step, hex);
    let done = choose|done: Draft| #[trigger]
        tx_builder::signs(done, Ok(hex)) && is_transaction(ctx, step, done);
    let (address, n) = step.payout->Some_0;
    assert(pays(ctx, address, n, done.outputs[1]));
}

/// A step without collateral in the wallet is refused in these words.
pub proof fn lemma_no_collateral(
    ctx: ContextView,
    step: StepView,
    r: Result<Seq<char>, ErrorView>,
)
    requires
        contract::step_yields(ctx, step, r),
        forall|j: int|
            0 <= j < ctx.wallet_utxos.len() ==> !is_five_ada(#[trigger] ctx.wallet_utxos[j]),
    ensures
        r == Err::<Seq<char>, ErrorView>(
            ErrorView::Parse("no ADA-only wallet UTxO with >= 5 ADA for collateral"@),
        ),
{
    lemma_collateral_is_five_ada(ctx.wallet_utxos);
}

/// Where a transaction for a step is refused although there is collateral, the SDK refused to
/// build or to sign it, and its words stand behind those of the library.
pub proof fn lemma_refused_by_sdk(ctx: ContextView, step: StepView, e: ErrorView, j: int)
    requires
        contract::step_yields(ctx, step, Err(e)),
        0 <= j < ctx.wallet_utxos.len(),
        is_five_ada(ctx.wallet_utxos[j]),
    ensures
        exists|words: Seq<char>|
            #![auto]
            e == ErrorView::Parse("tx build failed: "@ + words) || e == ErrorView::Parse(
                "tx signing failed: "@ + words,
            ),
{
    lemma_collateral_is_five_ada(ctx.wallet_utxos);
}

} // verus!

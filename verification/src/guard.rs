//! When the transaction for a step can be built: a test that callers can make before they ask
//! for it.

use crate::address::{is_payable, is_spendable};
use crate::base16::{decode_hex, is_hex_text};
use crate::contract::{datum_cbor, ContextView, TxContext};
use crate::digits::read_value;
use crate::steps::{ContractStep, StepView};
use crate::text::{characters, read_u64, same};
use crate::tx_builder::{Amount, AmountView, Network, Utxo, UtxoView};
use crate::types::{Action, State};
use crate::{address, contract, round_trip, text, tx_builder};
use vstd::prelude::*;
use vstd::string::*;
use vstd::utf8::*;

verus! {

/// Whether a context is that of a real pool: cBTC has a unit of its own, with a policy of 56
/// bytes, the amounts are those of a ledger, the addresses, the script, the wallet and the key
/// can be read, and the cost models can be written.
pub open spec fn is_sensible(ctx: ContextView) -> bool {
    &&& !tx_builder::is_lovelace(ctx.cbtc_unit())
    &&& is_char_boundary(encode_utf8(ctx.cbtc_unit()), 56)
    &&& ctx.script_lovelace <= i64::MAX
    &&& 0 <= ctx.script_cbtc
    &&& is_char_boundary(encode_utf8(ctx.operator_skey), 4)
    &&& address::can_be_paid(ctx.script_address)
    &&& address::can_be_paid(ctx.operator_address)
    &&& tx_builder::script_reads(ctx.script_cbor)
    &&& tx_builder::network_writes(ctx.network)
    &&& forall|i: int|
        0 <= i < ctx.wallet_utxos.len() ==> is_readable(#[trigger] ctx.wallet_utxos[i])
}

/// Whether an unspent output can be read: its address can be, its quantities are numbers and
/// its units can be taken apart.
pub open spec fn is_readable(u: UtxoView) -> bool {
    &&& address::can_be_spent(u.address)
    &&& tx_builder::quantities_parse(u.amount)
    &&& tx_builder::units_split(u.amount)
}

/// Whether a step makes sense in the context of a real pool: byte strings are hexadecimal,
/// no cBTC is negative, the address that is paid can be read, and a script output without
/// lovelace gets an amount of a ledger.
pub open spec fn is_sensible_step(ctx: ContextView, step: StepView) -> bool {
    &&& is_sensible(ctx)
    &&& round_trip::action_is_hex(step.action)
    &&& round_trip::state_is_hex(step.state)
    &&& step.script_cbtc >= 0
    &&& match step.payout {
        Some((payee, cbtc)) => cbtc >= 0 && address::can_be_paid(payee),
        None => true,
    }
    &&& ctx.script_lovelace == 0 ==> tx_builder::least_lovelace(
        contract::script_output(ctx, step),
        tx_builder::coins_per_byte(ctx.protocol_params),
    ) <= i64::MAX
}

/// Whether an unspent output can be read.
fn can_be_read(u: &Utxo) -> (r: bool)
    ensures
        r == is_readable(u@),
{
    if !is_spendable(u.address.as_str()) {
        return false;
    }
    let amounts: &Vec<Amount> = &u.amount;
    let ghost views = u@.amount;
    let mut i: usize = 0;
    while i < amounts.len()
        invariant
            i <= amounts.len(),
            views == u@.amount,
            views == tx_builder::amounts_view(amounts@),
            forall|k: int|
                0 <= k < i ==> text::parse_u64((#[trigger] views[k]).quantity) is Some && (
                views[k].unit == "lovelace"@ || is_char_boundary(encode_utf8(views[k].unit), 56)),
        decreases amounts.len() - i,
    {
        let a = &amounts[i];
        assert(views[i as int] == a@);
        if read_u64(a.quantity.as_str()).is_none() {
            return false;
        }
        if !same(a.unit.as_str(), "lovelace") && !a.unit.as_str().is_char_boundary(56) {
            return false;
        }
        i = i + 1;
    }
    true
}

/// Whether the SDK can read a script without a panic.
fn is_script(script: &str) -> (r: bool)
    ensures
        r == tx_builder::script_reads(script@),
{
    let bytes = match decode_hex(script) {
        Ok(bytes) => bytes,
        Err(_) => {
            return false;
        },
    };
    if bytes.len() < 9 || bytes[0] != 0x5b {
        return true;
    }
    let length: u64 = read_value(vstd::slice::slice_subrange(bytes.as_slice(), 1, 9));
    length <= bytes.len() as u64
}

/// Whether the SDK can write the cost model of Plutus V3 without a panic.
fn can_be_written(network: &Network) -> (r: bool)
    ensures
        r == tx_builder::network_writes(network@),
{
    match network {
        Network::Custom(models) => {
            if models.len() <= 2 {
                return true;
            }
            let ghost views = network@->Custom_0;
            assert(views[2] == models[2]@);
            let mut i: usize = 0;
            while i < models[2].len()
                invariant
                    models.len() > 2,
                    i <= models[2].len(),
                    views == network@->Custom_0,
                    network@ is Custom,
                    views.len() > 2,
                    views[2] == models[2]@,
                    forall|k: int| 0 <= k < i ==> #[trigger] views[2][k] > i64::MIN,
                decreases models[2].len() - i,
            {
                if models[2][i] == i64::MIN {
                    assert(views[2][i as int] == i64::MIN);
                    return false;
                }
                i = i + 1;
            }
            true
        },
        _ => true,
    }
}

impl TxContext<'_> {
    /// Whether this is the context of a real pool.
    pub fn is_sensible(&self) -> (r: bool)
        ensures
            r == is_sensible(self@),
    {
        let unit = self.cbtc_unit();
        proof {
            reveal_strlit("");
            assert(unit@.len() == 0 ==> unit@ =~= ""@);
        }
        if same(unit.as_str(), "lovelace") || same(unit.as_str(), "")
            || !unit.as_str().is_char_boundary(56) {
            return false;
        }
        if self.script_lovelace > 0x7fff_ffff_ffff_ffff || self.script_cbtc < 0
            || !self.operator_skey.is_char_boundary(4) {
            return false;
        }
        if !is_payable(self.script_address) || !is_payable(self.operator_address) || !is_script(
            self.script_cbor,
        ) || !can_be_written(&self.network) {
            return false;
        }
        let ghost views = self@.wallet_utxos;
        let mut i: usize = 0;
        while i < self.wallet_utxos.len()
            invariant
                i <= self.wallet_utxos.len(),
                views == self@.wallet_utxos,
                forall|k: int| 0 <= k < i ==> is_readable(#[trigger] views[k]),
            decreases self.wallet_utxos.len() - i,
        {
            assert(views[i as int] == self.wallet_utxos@[i as int]@);
            if !can_be_read(&self.wallet_utxos[i]) {
                assert(!is_readable(self@.wallet_utxos[i as int]));
                return false;
            }
            i = i + 1;
        }
        true
    }
}

/// Whether the byte strings of a pool state are hexadecimal.
pub fn state_is_hex(state: &State) -> (r: bool)
    ensures
        r == round_trip::state_is_hex(state@),
{
    let mut i: usize = 0;
    while i < state.invoices.len()
        invariant
            i <= state.invoices.len(),
            forall|k: int|
                0 <= k < i ==> round_trip::invoice_is_hex(#[trigger] state@.invoices[k]),
        decreases state.invoices.len() - i,
    {
        assert(state@.invoices[i as int] == state.invoices[i as int]@);
        if !is_hex_text(state.invoices[i].owner.as_str()) {
            return false;
        }
        i = i + 1;
    }
    let mut j: usize = 0;
    while j < state.offramps.len()
        invariant
            j <= state.offramps.len(),
            forall|k: int|
                0 <= k < j ==> round_trip::offramp_is_hex(#[trigger] state@.offramps[k]),
        decreases state.offramps.len() - j,
    {
        assert(state@.offramps[j as int] == state.offramps[j as int]@);
        if !is_hex_text(state.offramps[j].payment_hash.as_str()) || !is_hex_text(
            state.offramps[j].refund_address.as_str(),
        ) {
            return false;
        }
        j = j + 1;
    }
    true
}

/// Whether the byte strings of an action are hexadecimal.
pub fn action_is_hex(action: &Action) -> (r: bool)
    ensures
        r == round_trip::action_is_hex(action@),
{
    match action {
        Action::CreateInvoice { owner, .. } => is_hex_text(owner.as_str()),
        Action::FulfillInvoice { invoice } => is_hex_text(invoice.owner.as_str()),
        Action::CreateOfframp { payment_hash, refund_address, .. } => is_hex_text(
            payment_hash.as_str(),
        ) && is_hex_text(refund_address.as_str()),
        Action::FulfillOfframp { offramp } => is_hex_text(offramp.payment_hash.as_str())
            && is_hex_text(offramp.refund_address.as_str()),
        _ => true,
    }
}

/// Whether a script output without lovelace gets an amount of a ledger.
fn is_affordable(ctx: &TxContext, step: &ContractStep) -> (r: bool)
    requires
        round_trip::state_is_hex(step.state@),
    ensures
        r == (tx_builder::least_lovelace(
            contract::script_output(ctx@, step@),
            tx_builder::coins_per_byte(ctx@.protocol_params),
        ) <= i64::MAX),
{
    let coins: u64 = match &ctx.protocol_params {
        Some(params) => params.coins_per_utxo_size,
        None => 4310,
    };
    let address: usize = characters(ctx.script_address).len();
    let datum: usize = characters(datum_cbor(&step.state).as_str()).len();
    let size: u128 = 500 + address as u128 + datum as u128;
    match (coins as u128).checked_mul(size) {
        Some(lovelace) => lovelace <= 0x7fff_ffff_ffff_ffff,
        None => false,
    }
}

/// Whether a step makes sense in the context of a real pool. The transaction for it can then
/// be built without a panic.
pub fn is_buildable(ctx: &TxContext, step: &ContractStep) -> (r: bool)
    ensures
        r == is_sensible_step(ctx@, step@),
        r ==> contract::can_build(ctx@, step@),
{
    let pays = match &step.payout {
        Some((payee, cbtc)) => *cbtc >= 0 && is_payable(payee.as_str()),
        None => true,
    };
    let r = pays && step.script_cbtc >= 0 && ctx.is_sensible() && state_is_hex(&step.state)
        && action_is_hex(&step.action) && (ctx.script_lovelace != 0 || is_affordable(ctx, step));
    proof {
        if r {
            lemma_can_build(ctx@, step@);
        }
    }
    r
}

/// How much of a unit an amount of lovelace and one of another unit hold.
proof fn lemma_pair_total(lovelace: u64, unit: Seq<char>, quantity: i64, wanted: Seq<char>)
    requires
        quantity >= 0,
        !tx_builder::is_lovelace(unit),
    ensures
        tx_builder::quantities_parse(contract::pair_of(lovelace as int, unit, quantity as int)),
        tx_builder::total(contract::pair_of(lovelace as int, unit, quantity as int), wanted) == if
            tx_builder::is_lovelace(wanted) {
            lovelace as int
        } else if wanted == unit {
            quantity as int
        } else {
            0
        },
{
    let pair = contract::pair_of(lovelace as int, unit, quantity as int);
    text::lemma_u64_round_trip(lovelace);
    text::lemma_u64_round_trip(quantity as u64);
    assert(pair.drop_last().drop_last().len() == 0);
    assert(tx_builder::total(pair.drop_last().drop_last(), wanted) == 0);
    assert(pair.drop_last().last() == pair[0]);
    assert(pair.last() == pair[1]);
    assert(tx_builder::total(pair.drop_last(), wanted) == if tx_builder::is_lovelace(wanted) {
        lovelace as int
    } else {
        0
    });
}

/// The transaction for a step that makes sense in the context of a real pool can be built
/// without a panic.
pub proof fn lemma_can_build(ctx: ContextView, step: StepView)
    requires
        is_sensible_step(ctx, step),
    ensures
        contract::can_build(ctx, step),
{
    if let Some(collateral) = contract::first_collateral(ctx.wallet_utxos) {
        contract::lemma_first_collateral(ctx.wallet_utxos);
        let d = contract::contract_draft(ctx, step, collateral);
        let unit = ctx.cbtc_unit();
        let coins = tx_builder::coins_per_byte(d.protocol);
        assert(coins == tx_builder::coins_per_byte(ctx.protocol_params));
        let input = contract::script_input(ctx, step);
        let output = contract::script_output(ctx, step);
        assert(d.all_inputs() =~= seq![input]);
        assert(d.all_collaterals() =~= seq![collateral]);
        reveal_strlit("5000000");
        assert("5000000"@ =~= text::decimal(5_000_000)) by {
            lemma_five_ada();
        }
        text::lemma_u64_round_trip(5_000_000);
        assert forall|wanted: Seq<char>| #[trigger]
            tx_builder::total(input.spent.amount, wanted) <= u64::MAX by {
            lemma_pair_total(ctx.script_lovelace, unit, ctx.script_cbtc, wanted);
        }
        lemma_pair_total(ctx.script_lovelace, unit, ctx.script_cbtc, unit);
        lemma_pair_total(ctx.script_lovelace, unit, step.script_cbtc, "lovelace"@);
        match step.payout {
            Some((address, cbtc)) => {
                let payout = contract::payout_output(ctx, address, cbtc);
                let outputs = d.all_outputs();
                assert(outputs =~= seq![output, payout]);
                lemma_pair_total(2_000_000, unit, cbtc, "lovelace"@);
                assert forall|wanted: Seq<char>|
                    (#[trigger] tx_builder::outputs_total(outputs, coins, wanted)) + (
                    if tx_builder::is_lovelace(wanted) {
                        d.threshold as int
                    } else {
                        0
                    }) <= u64::MAX by {
                    lemma_pair_total(ctx.script_lovelace, unit, step.script_cbtc, wanted);
                    lemma_pair_total(2_000_000, unit, cbtc, wanted);
                    assert(outputs.drop_last() =~= seq![output]);
                    assert(seq![output].drop_last().len() == 0);
                    assert(tx_builder::outputs_total(seq![output].drop_last(), coins, wanted) == 0);
                    assert(tx_builder::outputs_total(seq![output], coins, wanted)
                        == tx_builder::needed(output, coins, wanted));
                }
            },
            None => {
                let outputs = d.all_outputs();
                assert(outputs =~= seq![output]);
                assert forall|wanted: Seq<char>|
                    (#[trigger] tx_builder::outputs_total(outputs, coins, wanted)) + (
                    if tx_builder::is_lovelace(wanted) {
                        d.threshold as int
                    } else {
                        0
                    }) <= u64::MAX by {
                    lemma_pair_total(ctx.script_lovelace, unit, step.script_cbtc, wanted);
                    assert(outputs.drop_last().len() == 0);
                    assert(tx_builder::outputs_total(outputs.drop_last(), coins, wanted) == 0);
                }
            },
        }
        assert(tx_builder::amounts_fit(d));
        assert(tx_builder::addresses_read(d));
        assert(tx_builder::parts_fit(d));
    }
}

/// The numeral of five ADA in lovelace.
proof fn lemma_five_ada()
    ensures
        text::decimal(5_000_000) == seq!['5', '0', '0', '0', '0', '0', '0'],
{
    reveal_with_fuel(text::numeral, 8);
    assert(text::decimal(5_000_000) =~= seq!['5', '0', '0', '0', '0', '0', '0']);
}

} // verus!

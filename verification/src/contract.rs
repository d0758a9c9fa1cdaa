//! Transaction building for the operations of the contract.
//!
//! Each function builds a complete transaction for one operation: it works out the step from
//! the current pool state to the next and hands the transaction for it to the SDK.

use crate::datum::{action_to_plutus_json, plutus_json_to_cbor_hex, state_to_plutus_json};
use crate::error::{CardanoError, ErrorView};
use crate::steps::{
    cancel_invoice_step, cancel_offramp_step, create_invoice_step, create_offramp_step,
    deposit_step, fulfill_invoice_step, fulfill_offramp_step, withdraw_step, ContractStep,
    StepView,
};
use crate::text::{i64_text, joined, read_u64, same, u64_text};
use crate::tx_builder::{
    Amount, AmountView, Draft, InputView, Network, NetworkView, OutputView, ProtocolParams,
    ProtocolView, Redeemer, RedeemerView, Utxo, UtxoView,
};
use crate::types::{Action, ActionView, Invoice, Offramp, State, StateView};
use crate::{base16, cbor, datum, error, json, round_trip, steps, text, tx_builder, types};
use vstd::prelude::*;
use vstd::string::*;
use vstd::utf8::*;

verus! {

/// All context needed to build a contract transaction.
pub struct TxContext<'a> {
    /// The script UTxO (tx_hash#index).
    pub script_tx_hash: &'a str,
    pub script_tx_index: u32,
    /// Current assets on the script UTxO (lovelace + cBTC).
    pub script_lovelace: u64,
    pub script_cbtc: i64,
    /// The script address.
    pub script_address: &'a str,
    /// The applied Plutus script CBOR hex.
    pub script_cbor: &'a str,
    /// Operator's Cardano address.
    pub operator_address: &'a str,
    /// Operator's payment key hash (hex, for the required signer).
    pub operator_pkh: &'a str,
    /// Operator's signing key hex.
    pub operator_skey: &'a str,
    /// cBTC policy ID (hex).
    pub cbtc_policy: &'a str,
    /// cBTC asset name (hex).
    pub cbtc_name: &'a str,
    /// Operator wallet UTxOs for fee payment and collateral.
    pub wallet_utxos: &'a [Utxo],
    /// Network (with cost models) for the script integrity hash.
    pub network: Network,
    /// Protocol parameters for the calculation of fees; without them, defaults are used.
    pub protocol_params: Option<ProtocolParams>,
}

/// The model of a [`TxContext`].
pub struct ContextView {
    pub script_tx_hash: Seq<char>,
    pub script_tx_index: u32,
    pub script_lovelace: u64,
    pub script_cbtc: i64,
    pub script_address: Seq<char>,
    pub script_cbor: Seq<char>,
    pub operator_address: Seq<char>,
    pub operator_pkh: Seq<char>,
    pub operator_skey: Seq<char>,
    pub cbtc_policy: Seq<char>,
    pub cbtc_name: Seq<char>,
    pub wallet_utxos: Seq<UtxoView>,
    pub network: NetworkView,
    pub protocol_params: Option<ProtocolView>,
}

impl View for TxContext<'_> {
    type V = ContextView;

    open spec fn view(&self) -> ContextView {
        ContextView {
            script_tx_hash: self.script_tx_hash@,
            script_tx_index: self.script_tx_index,
            script_lovelace: self.script_lovelace,
            script_cbtc: self.script_cbtc,
            script_address: self.script_address@,
            script_cbor: self.script_cbor@,
            operator_address: self.operator_address@,
            operator_pkh: self.operator_pkh@,
            operator_skey: self.operator_skey@,
            cbtc_policy: self.cbtc_policy@,
            cbtc_name: self.cbtc_name@,
            wallet_utxos: tx_builder::utxos_view(self.wallet_utxos@),
            network: self.network@,
            protocol_params: tx_builder::protocol_view(self.protocol_params),
        }
    }
}

impl ContextView {
    /// The unit of cBTC: its policy and its name.
    pub open spec fn cbtc_unit(self) -> Seq<char> {
        self.cbtc_policy + self.cbtc_name
    }
}

impl TxContext<'_> {
    /// The unit of cBTC: its policy and its name.
    pub fn cbtc_unit(&self) -> (r: String)
        ensures
            r@ == self@.cbtc_unit(),
    {
        joined(self.cbtc_policy, self.cbtc_name)
    }
}

/// The redeemer of an action: its CBOR hex, and a fixed budget.
pub open spec fn redeemer_view(action: ActionView) -> RedeemerView {
    RedeemerView {
        data: datum::json_to_hex(datum::action_json(action))->Ok_0,
        mem: 800_000,
        steps: 400_000_000,
    }
}

/// The redeemer of an action. Its data reads back as the action, with byte strings in
/// lowercase.
pub fn redeemer_for(action: &Action) -> (r: Redeemer)
    requires
        round_trip::action_is_hex(action@),
    ensures
        r@ == redeemer_view(action@),
        redeemer_reads(r.data@, action@),
{
    proof {
        round_trip::lemma_action_plutus(action@);
    }
    let data = match plutus_json_to_cbor_hex(&action_to_plutus_json(action)) {
        Ok(data) => data,
        Err(_) => String::new(),
    };
    Redeemer { data, mem: 800_000, steps: 400_000_000 }
}

/// Whether a datum, as CBOR hex, is read as this pool state.
pub open spec fn datum_reads(hex: Seq<char>, state: StateView) -> bool {
    match datum::hex_to_json(hex) {
        Ok(j) => types::state_of(j) == Ok::<StateView, ErrorView>(state),
        Err(_) => false,
    }
}

/// Whether a redeemer, as CBOR hex, is read as this action.
pub open spec fn redeemer_reads(hex: Seq<char>, action: ActionView) -> bool {
    datum::hex_to_json(hex) == Ok::<json::JsonView, ErrorView>(
        round_trip::lowered(datum::action_json(action)),
    )
}

/// The datum of a pool state, as CBOR hex. It reads back as the state, with byte strings in
/// lowercase.
pub fn datum_cbor(state: &State) -> (r: String)
    requires
        round_trip::state_is_hex(state@),
    ensures
        Ok::<Seq<char>, ErrorView>(r@) == datum::json_to_hex(datum::state_json(state@)),
        datum_reads(r@, round_trip::lowered_state(state@)),
{
    proof {
        round_trip::lemma_state_plutus(state@);
        round_trip::lemma_state_json(round_trip::lowered_state(state@));
    }
    match plutus_json_to_cbor_hex(&state_to_plutus_json(state)) {
        Ok(data) => data,
        Err(_) => String::new(),
    }
}

/// Whether an unspent output can be put up as collateral: it holds nothing but lovelace, and
/// five ADA of it in one amount.
pub open spec fn is_collateral(u: UtxoView) -> bool {
    &&& forall|i: int| 0 <= i < u.amount.len() ==> (#[trigger] u.amount[i]).unit == "lovelace"@
    &&& exists|i: int|
        0 <= i < u.amount.len() && match text::parse_u64((#[trigger] u.amount[i]).quantity) {
            Some(n) => n >= 5_000_000,
            None => false,
        }
}

/// The first of some unspent outputs that can be put up as collateral.
pub open spec fn first_collateral(utxos: Seq<UtxoView>) -> Option<UtxoView>
    decreases utxos.len(),
{
    if utxos.len() == 0 {
        None
    } else if is_collateral(utxos[0]) {
        Some(utxos[0])
    } else {
        first_collateral(utxos.skip(1))
    }
}

/// Whether an unspent output can be put up as collateral.
pub fn can_be_collateral(u: &Utxo) -> (r: bool)
    ensures
        r == is_collateral(u@),
{
    let mut has_enough = false;
    let mut i: usize = 0;
    while i < u.amount.len()
        invariant
            i <= u.amount.len(),
            forall|k: int| 0 <= k < i ==> (#[trigger] u@.amount[k]).unit == "lovelace"@,
            has_enough == exists|k: int|
                0 <= k < i && match text::parse_u64((#[trigger] u@.amount[k]).quantity) {
                    Some(n) => n >= 5_000_000,
                    None => false,
                },
        decreases u.amount.len() - i,
    {
        let a = &u.amount[i];
        assert(u@.amount[i as int] == a@);
        if !same(a.unit.as_str(), "lovelace") {
            return false;
        }
        if let Some(n) = read_u64(a.quantity.as_str()) {
            if n >= 5_000_000 {
                has_enough = true;
            }
        }
        i = i + 1;
    }
    has_enough
}

/// Finds the first of some unspent outputs that can be put up as collateral. Collateral may
/// hold no native tokens.
pub fn find_collateral(utxos: &[Utxo]) -> (r: Option<&Utxo>)
    ensures
        (match r {
            Some(u) => Some(u@),
            None => None,
        }) == first_collateral(tx_builder::utxos_view(utxos@)),
{
    let ghost views = tx_builder::utxos_view(utxos@);
    let mut i: usize = 0;
    assert(views.skip(0) =~= views);
    while i < utxos.len()
        invariant
            i <= utxos.len(),
            views == tx_builder::utxos_view(utxos@),
            first_collateral(views) == first_collateral(views.skip(i as int)),
        decreases utxos.len() - i,
    {
        assert(views.skip(i as int)[0] == views[i as int]);
        assert(views.skip(i as int).skip(1) =~= views.skip(i + 1));
        if can_be_collateral(&utxos[i]) {
            return Some(&utxos[i]);
        }
        i = i + 1;
    }
    None
}

/// An amount of lovelace and one of another unit.
pub open spec fn pair_of(lovelace: int, unit: Seq<char>, quantity: int) -> Seq<AmountView> {
    seq![
        AmountView { unit: "lovelace"@, quantity: text::decimal(lovelace) },
        AmountView { unit, quantity: text::decimal(quantity) },
    ]
}

/// Lists an amount of lovelace and one of another unit.
fn amount_pair(lovelace: u64, unit: String, quantity: i64) -> (r: Vec<Amount>)
    ensures
        tx_builder::amounts_view(r@) == pair_of(lovelace as int, unit@, quantity as int),
{
    let r = vec![
        Amount { unit: "lovelace".to_owned(), quantity: u64_text(lovelace) },
        Amount { unit, quantity: i64_text(quantity) },
    ];
    assert(tx_builder::amounts_view(r@) =~= pair_of(lovelace as int, unit@, quantity as int));
    r
}

/// The input of the transaction for a step: the script output, unlocked by the action.
pub open spec fn script_input(ctx: ContextView, step: StepView) -> InputView {
    InputView {
        spent: UtxoView {
            tx_hash: ctx.script_tx_hash,
            output_index: ctx.script_tx_index,
            address: ctx.script_address,
            amount: pair_of(
                ctx.script_lovelace as int,
                ctx.cbtc_unit(),
                ctx.script_cbtc as int,
            ),
        },
        guarded: true,
        inline_datum: true,
        redeemer: Some(redeemer_view(step.action)),
        script: Some(ctx.script_cbor),
    }
}

/// The output that carries the next pool state and the cBTC that is left at the script.
pub open spec fn script_output(ctx: ContextView, step: StepView) -> OutputView {
    OutputView {
        address: ctx.script_address,
        amount: pair_of(ctx.script_lovelace as int, ctx.cbtc_unit(), step.script_cbtc as int),
        inline_datum: Some(datum::json_to_hex(datum::state_json(step.state))->Ok_0),
    }
}

/// The output that pays cBTC to an address, with two ADA beside it.
pub open spec fn payout_output(ctx: ContextView, address: Seq<char>, cbtc: i64) -> OutputView {
    OutputView {
        address,
        amount: pair_of(2_000_000, ctx.cbtc_unit(), cbtc as int),
        inline_datum: None,
    }
}

/// The draft of the transaction for a step:
/// 1. it spends the script output, unlocked by the action,
/// 2. it makes a new script output with the next pool state and its cBTC,
/// 3. it pays out cBTC where the step does so,
/// 4. it puts up collateral, of which all but five ADA returns to the operator,
/// 5. the operator signs, pays the fees and gets the change.
pub open spec fn contract_draft(ctx: ContextView, step: StepView, collateral: UtxoView) -> Draft {
    Draft {
        protocol: match ctx.protocol_params {
            Some(params) => Some(tx_builder::with_doubles(params)),
            None => None,
        },
        network: Some(ctx.network),
        guard_next: false,
        last_input: Some(script_input(ctx, step)),
        inputs: Seq::empty(),
        last_output: match step.payout {
            Some((address, cbtc)) => Some(payout_output(ctx, address, cbtc)),
            None => Some(script_output(ctx, step)),
        },
        outputs: match step.payout {
            Some(_) => seq![script_output(ctx, step)],
            None => Seq::empty(),
        },
        last_collateral: Some(collateral),
        collaterals: Seq::empty(),
        total_collateral: Some("5000000"@),
        collateral_return: Some(ctx.operator_address),
        signers: seq![ctx.operator_pkh],
        change_address: ctx.operator_address,
        spare: ctx.wallet_utxos,
        threshold: 5_000_000,
        signing_keys: seq![ctx.operator_skey],
    }
}

/// Whether the transaction for a step can be built without a panic: byte strings are
/// hexadecimal and, where there is collateral, the SDK can complete and sign the draft. Left out
/// are addresses and scripts that the SDK panics on: bech32 without a payload, malformed
/// addresses of the Byron era, and scripts that are not hexadecimal or ask for more memory than
/// they fill (see [`tx_builder::parts_fit`]).
pub open spec fn can_build(ctx: ContextView, step: StepView) -> bool {
    &&& round_trip::action_is_hex(step.action)
    &&& round_trip::state_is_hex(step.state)
    &&& match first_collateral(ctx.wallet_utxos) {
        Some(collateral) => tx_builder::parts_fit(contract_draft(ctx, step, collateral))
            && is_char_boundary(encode_utf8(ctx.operator_skey), 4),
        None => true,
    }
}

/// Whether building and signing a draft can come out like this.
pub open spec fn may_yield(d: Draft, r: Result<Seq<char>, ErrorView>) -> bool {
    match r {
        Ok(hex) => base16::is_hex(hex) && exists|done: Draft|
            tx_builder::is_completion(d, done) && #[trigger] tx_builder::completes(d, Ok(done))
                && tx_builder::signs(done, Ok(hex)),
        Err(e) => {
            ||| exists|text: Seq<char>|
                #[trigger] tx_builder::completes(d, Err(text)) && e == build_error(text)
            ||| exists|done: Draft, text: Seq<char>| #[trigger]
                tx_builder::completes(d, Ok(done)) && #[trigger] tx_builder::signs(done, Err(text))
                    && tx_builder::is_completion(d, done) && e == signing_error(text)
        },
    }
}

/// What is said where the SDK does not build a transaction.
pub open spec fn build_error(text: Seq<char>) -> ErrorView {
    ErrorView::Parse("tx build failed: "@ + text)
}

/// What is said where the SDK does not sign a transaction.
pub open spec fn signing_error(text: Seq<char>) -> ErrorView {
    ErrorView::Parse("tx signing failed: "@ + text)
}

/// What comes of a step: nothing without collateral, and else what the SDK makes of the
/// draft for it. The draft carries the next pool state and the action, each so that it is
/// read again with its byte strings in lowercase.
pub open spec fn step_yields(
    ctx: ContextView,
    step: StepView,
    r: Result<Seq<char>, ErrorView>,
) -> bool {
    &&& datum_reads(
        script_output(ctx, step).inline_datum->Some_0,
        round_trip::lowered_state(step.state),
    )
    &&& redeemer_reads(script_input(ctx, step).redeemer->Some_0.data, step.action)
    &&& match first_collateral(ctx.wallet_utxos) {
        Some(collateral) => may_yield(contract_draft(ctx, step, collateral), r),
        None => r == Err::<Seq<char>, ErrorView>(
            ErrorView::Parse("no ADA-only wallet UTxO with >= 5 ADA for collateral"@),
        ),
    }
}

/// Reports what the SDK answered when it was asked to build a transaction.
pub fn build_outcome(built: Result<(), String>) -> (r: Result<(), CardanoError>)
    ensures
        match built {
            Ok(_) => r is Ok,
            Err(text) => r is Err && r->Err_0@ == build_error(text@),
        },
{
    match built {
        Ok(_) => Ok(()),
        Err(text) => Err(CardanoError::parse_with("tx build failed: ", text.as_str())),
    }
}

/// Reports what the SDK answered when it was asked to sign a transaction.
pub fn signing_outcome(signed: Result<String, String>) -> (r: Result<String, CardanoError>)
    ensures
        match signed {
            Ok(hex) => r is Ok && r->Ok_0@ == hex@,
            Err(text) => r is Err && r->Err_0@ == signing_error(text@),
        },
{
    match signed {
        Ok(hex) => Ok(hex),
        Err(text) => Err(CardanoError::parse_with("tx signing failed: ", text.as_str())),
    }
}

/// The redeemer and the datum of the transaction for a step are data.
proof fn lemma_data_reads(ctx: ContextView, step: StepView, collateral: UtxoView)
    requires
        round_trip::action_is_hex(step.action),
        round_trip::state_is_hex(step.state),
    ensures
        tx_builder::data_reads(contract_draft(ctx, step, collateral)),
{
    let d = contract_draft(ctx, step, collateral);
    let action = datum::json_to_cbor(datum::action_json(step.action))->Ok_0;
    round_trip::lemma_action_plutus(step.action);
    round_trip::lemma_json_round_trip(datum::action_json(step.action));
    round_trip::lemma_datum_plain(action);
    assert(redeemer_view(step.action).data == base16::hex_text(cbor::encoded_cbor(action)));
    let state = datum::json_to_cbor(datum::state_json(step.state))->Ok_0;
    round_trip::lemma_state_plutus(step.state);
    round_trip::lemma_json_round_trip(datum::state_json(step.state));
    round_trip::lemma_datum_plain(state);
    assert(script_output(ctx, step).inline_datum->Some_0 == base16::hex_text(
        cbor::encoded_cbor(state),
    ));
    assert(d.all_inputs() =~= seq![script_input(ctx, step)]);
    assert(d.all_outputs() =~= step_outputs(ctx, step));
}

/// Builds and signs the transaction for a step.
pub fn build_contract_tx(ctx: &TxContext, step: &ContractStep) -> (r: Result<
    String,
    CardanoError,
>)
    requires
        can_build(ctx@, step@),
    ensures
        step_yields(ctx@, step@, error::outcome(r)),
{
    let mut tx = tx_builder::new_core();
    let protocol_params = match &ctx.protocol_params {
        Some(params) => Some(params.clone()),
        None => None,
    };
    tx_builder::set_protocol_params(&mut tx, protocol_params);
    tx_builder::network(&mut tx, &ctx.network);

    // Spend the script output.
    let script_input_assets = amount_pair(ctx.script_lovelace, ctx.cbtc_unit(), ctx.script_cbtc);
    tx_builder::spending_plutus_script_v3(&mut tx);
    tx_builder::tx_in(
        &mut tx,
        ctx.script_tx_hash,
        ctx.script_tx_index,
        script_input_assets.as_slice(),
        ctx.script_address,
    );
    tx_builder::tx_in_inline_datum_present(&mut tx);
    tx_builder::tx_in_redeemer_value(&mut tx, &redeemer_for(&step.action));
    tx_builder::tx_in_script(&mut tx, ctx.script_cbor);

    // Make the new script output.
    let new_datum_cbor = datum_cbor(&step.state);
    let new_script_assets = amount_pair(ctx.script_lovelace, ctx.cbtc_unit(), step.script_cbtc);
    tx_builder::tx_out(&mut tx, ctx.script_address, new_script_assets.as_slice());
    tx_builder::tx_out_inline_datum_value(&mut tx, new_datum_cbor.as_str());

    // Pay out cBTC.
    if let Some((address, cbtc)) = &step.payout {
        let payout_assets = amount_pair(2_000_000, ctx.cbtc_unit(), *cbtc);
        tx_builder::tx_out(&mut tx, address.as_str(), payout_assets.as_slice());
    }

    // Put up collateral.
    let collateral = match find_collateral(ctx.wallet_utxos) {
        Some(u) => u,
        None => {
            return Err(
                CardanoError::parse("no ADA-only wallet UTxO with >= 5 ADA for collateral"),
            );
        },
    };
    tx_builder::tx_in_collateral(
        &mut tx,
        collateral.tx_hash.as_str(),
        collateral.output_index,
        collateral.amount.as_slice(),
        collateral.address.as_str(),
    );
    tx_builder::set_total_collateral(&mut tx, "5000000");
    tx_builder::set_collateral_return_address(&mut tx, ctx.operator_address);

    // The operator signs and pays the fees.
    tx_builder::required_signer_hash(&mut tx, ctx.operator_pkh);
    tx_builder::change_address(&mut tx, ctx.operator_address);
    tx_builder::select_utxos_from(&mut tx, ctx.wallet_utxos, 5_000_000);
    tx_builder::signing_key(&mut tx, ctx.operator_skey);

    let ghost d = contract_draft(ctx@, step@, collateral@);
    proof {
        let c = tx_builder::contents(tx);
        assert(c.outputs =~= d.outputs);
        assert(c.collaterals =~= d.collaterals);
        assert(c.signers =~= d.signers);
        assert(c.spare =~= d.spare);
        assert(c.signing_keys =~= d.signing_keys);
        assert(c == d);
        lemma_data_reads(ctx@, step@, collateral@);
    }
    match build_outcome(tx_builder::complete_sync(&mut tx)) {
        Ok(_) => signing_outcome(tx_builder::complete_signing(&mut tx)),
        Err(e) => Err(e),
    }
}

/// What comes of a step that may be refused.
pub open spec fn outcome_yields(
    ctx: ContextView,
    step: Result<StepView, ErrorView>,
    r: Result<Seq<char>, ErrorView>,
) -> bool {
    match step {
        Ok(step) => step_yields(ctx, step, r),
        Err(e) => r == Err::<Seq<char>, ErrorView>(e),
    }
}

/// Whether the transaction for a step that may be refused can be built without a panic.
pub open spec fn outcome_can_build(ctx: ContextView, step: Result<StepView, ErrorView>) -> bool {
    match step {
        Ok(step) => can_build(ctx, step),
        Err(_) => true,
    }
}

/// Builds a deposit transaction.
///
/// The operator sends `amount` cBTC to the contract, which increases the total liquidity.
pub fn build_deposit_tx(ctx: &TxContext, current_state: &State, amount: i64) -> (r: Result<
    String,
    CardanoError,
>)
    requires
        amount > 0 ==> steps::fits(current_state.total_liquidity + amount) && steps::fits(
            ctx.script_cbtc + amount,
        ),
        outcome_can_build(ctx@, steps::deposit(current_state@, ctx.script_cbtc, amount)),
    ensures
        outcome_yields(
            ctx@,
            steps::deposit(current_state@, ctx.script_cbtc, amount),
            error::outcome(r),
        ),
{
    match deposit_step(current_state, ctx.script_cbtc, amount) {
        Ok(step) => build_contract_tx(ctx, &step),
        Err(e) => Err(e),
    }
}

/// Builds a withdrawal transaction.
///
/// The operator takes `amount` cBTC out of the pool, which must not exceed what is available.
pub fn build_withdraw_tx(ctx: &TxContext, current_state: &State, amount: i64) -> (r: Result<
    String,
    CardanoError,
>)
    requires
        steps::withdraw_fits(current_state@, ctx.script_cbtc, amount),
        outcome_can_build(ctx@, steps::withdraw(current_state@, ctx.script_cbtc, amount)),
    ensures
        outcome_yields(
            ctx@,
            steps::withdraw(current_state@, ctx.script_cbtc, amount),
            error::outcome(r),
        ),
{
    match withdraw_step(current_state, ctx.script_cbtc, amount) {
        Ok(step) => build_contract_tx(ctx, &step),
        Err(e) => Err(e),
    }
}

/// Builds a transaction that creates an invoice.
///
/// It reserves `amount` cBTC for the given owner until the invoice expires.
pub fn build_create_invoice_tx(
    ctx: &TxContext,
    current_state: &State,
    amount: i64,
    owner_pkh: &str,
    timestamp: i64,
    expires_at: i64,
) -> (r: Result<String, CardanoError>)
    requires
        steps::create_invoice_fits(current_state@, amount),
        outcome_can_build(
            ctx@,
            steps::create_invoice(
                current_state@,
                ctx.script_cbtc,
                amount,
                owner_pkh@,
                timestamp,
                expires_at,
            ),
        ),
    ensures
        outcome_yields(
            ctx@,
            steps::create_invoice(
                current_state@,
                ctx.script_cbtc,
                amount,
                owner_pkh@,
                timestamp,
                expires_at,
            ),
            error::outcome(r),
        ),
{
    match create_invoice_step(
        current_state,
        ctx.script_cbtc,
        amount,
        owner_pkh,
        timestamp,
        expires_at,
    ) {
        Ok(step) => build_contract_tx(ctx, &step),
        Err(e) => Err(e),
    }
}

/// Builds a transaction that fulfills an invoice.
///
/// It sends cBTC to the owner of the invoice, which decreases both what is reserved and the
/// total liquidity. Left out are owner addresses that the SDK panics on: bech32 without a
/// payload, and malformed addresses of the Byron era (see [`crate::address::can_be_paid`]).
pub fn build_fulfill_invoice_tx(
    ctx: &TxContext,
    current_state: &State,
    invoice: &Invoice,
    owner_address: &str,
) -> (r: Result<String, CardanoError>)
    requires
        steps::fits(current_state.total_liquidity - invoice.amount),
        steps::fits(current_state.reserved - invoice.amount),
        steps::fits(ctx.script_cbtc - invoice.amount),
        can_build(
            ctx@,
            steps::fulfill_invoice(current_state@, ctx.script_cbtc, invoice@, owner_address@),
        ),
    ensures
        step_yields(
            ctx@,
            steps::fulfill_invoice(current_state@, ctx.script_cbtc, invoice@, owner_address@),
            error::outcome(r),
        ),
{
    let step = fulfill_invoice_step(current_state, ctx.script_cbtc, invoice, owner_address);
    build_contract_tx(ctx, &step)
}

/// Builds a transaction that cancels an invoice.
///
/// It drops an expired invoice and unreserves its cBTC.
pub fn build_cancel_invoice_tx(ctx: &TxContext, current_state: &State, invoice_id: i64) -> (r:
    Result<String, CardanoError>)
    requires
        match steps::first_invoice(current_state@.invoices, invoice_id) {
            Some(invoice) => steps::fits(current_state.reserved - invoice.amount),
            None => true,
        },
        outcome_can_build(ctx@, steps::cancel_invoice(current_state@, ctx.script_cbtc, invoice_id)),
    ensures
        outcome_yields(
            ctx@,
            steps::cancel_invoice(current_state@, ctx.script_cbtc, invoice_id),
            error::outcome(r),
        ),
{
    match cancel_invoice_step(current_state, ctx.script_cbtc, invoice_id) {
        Ok(step) => build_contract_tx(ctx, &step),
        Err(e) => Err(e),
    }
}

/// Builds a transaction that creates an offramp, and gives its number.
///
/// It registers the intent to make a Lightning payment. No cBTC moves.
pub fn build_create_offramp_tx(
    ctx: &TxContext,
    current_state: &State,
    amount: i64,
    payment_hash: &str,
    refund_address: &str,
    expires_at: i64,
) -> (r: Result<(i64, String), CardanoError>)
    requires
        amount > 0 ==> steps::fits(current_state.last_offramp_id + 1),
        outcome_can_build(
            ctx@,
            steps::create_offramp(
                current_state@,
                ctx.script_cbtc,
                amount,
                payment_hash@,
                refund_address@,
                expires_at,
            ),
        ),
    ensures
        outcome_yields(
            ctx@,
            steps::create_offramp(
                current_state@,
                ctx.script_cbtc,
                amount,
                payment_hash@,
                refund_address@,
                expires_at,
            ),
            match r {
                Ok((_, hex)) => Ok(hex@),
                Err(e) => Err(e@),
            },
        ),
        r is Ok ==> r->Ok_0.0 == current_state.last_offramp_id + 1,
{
    match create_offramp_step(
        current_state,
        ctx.script_cbtc,
        amount,
        payment_hash,
        refund_address,
        expires_at,
    ) {
        Ok(step) => match build_contract_tx(ctx, &step) {
            Ok(tx) => Ok((step.state.last_offramp_id, tx)),
            Err(e) => Err(e),
        },
        Err(e) => Err(e),
    }
}

/// Builds a transaction that fulfills an offramp.
///
/// It puts cBTC into the pool after the Lightning payment succeeded, and drops the offramp.
pub fn build_fulfill_offramp_tx(ctx: &TxContext, current_state: &State, offramp: &Offramp) -> (r:
    Result<String, CardanoError>)
    requires
        steps::fits(current_state.total_liquidity + offramp.amount),
        steps::fits(ctx.script_cbtc + offramp.amount),
        can_build(ctx@, steps::fulfill_offramp(current_state@, ctx.script_cbtc, offramp@)),
    ensures
        step_yields(
            ctx@,
            steps::fulfill_offramp(current_state@, ctx.script_cbtc, offramp@),
            error::outcome(r),
        ),
{
    let step = fulfill_offramp_step(current_state, ctx.script_cbtc, offramp);
    build_contract_tx(ctx, &step)
}

/// Builds a transaction that cancels an offramp.
///
/// It drops an expired offramp. No cBTC moves.
pub fn build_cancel_offramp_tx(ctx: &TxContext, current_state: &State, offramp_id: i64) -> (r:
    Result<String, CardanoError>)
    requires
        outcome_can_build(ctx@, steps::cancel_offramp(current_state@, ctx.script_cbtc, offramp_id)),
    ensures
        outcome_yields(
            ctx@,
            steps::cancel_offramp(current_state@, ctx.script_cbtc, offramp_id),
            error::outcome(r),
        ),
{
    match cancel_offramp_step(current_state, ctx.script_cbtc, offramp_id) {
        Ok(step) => build_contract_tx(ctx, &step),
        Err(e) => Err(e),
    }
}

/// The collateral of a transaction comes from the wallet and holds nothing but lovelace, five
/// ADA of it in one amount; nothing before it in the wallet does.
pub proof fn lemma_first_collateral(utxos: Seq<UtxoView>)
    ensures
        match first_collateral(utxos) {
            Some(u) => exists|i: int|
                0 <= i < utxos.len() && #[trigger] utxos[i] == u && is_collateral(u) && forall|
                    j: int,
                |
                    0 <= j < i ==> !is_collateral(#[trigger] utxos[j]),
            None => forall|j: int| 0 <= j < utxos.len() ==> !is_collateral(#[trigger] utxos[j]),
        },
    decreases utxos.len(),
{
    if utxos.len() > 0 {
        if is_collateral(utxos[0]) {
            assert(utxos[0] == first_collateral(utxos)->Some_0);
        } else {
            let rest = utxos.skip(1);
            lemma_first_collateral(rest);
            match first_collateral(rest) {
                Some(u) => {
                    let i = choose|i: int|
                        0 <= i < rest.len() && #[trigger] rest[i] == u && forall|j: int|
                            0 <= j < i ==> !is_collateral(#[trigger] rest[j]);
                    assert(utxos[i + 1] == u);
                    assert forall|j: int| 0 <= j < i + 1 implies !is_collateral(
                        #[trigger] utxos[j],
                    ) by {
                        if j > 0 {
                            assert(rest[j - 1] == utxos[j]);
                        }
                    }
                },
                None => {
                    assert forall|j: int| 0 <= j < utxos.len() implies !is_collateral(
                        #[trigger] utxos[j],
                    ) by {
                        if j > 0 {
                            assert(rest[j - 1] == utxos[j]);
                        }
                    }
                },
            }
        }
    }
}

/// The outputs of the transaction for a step.
pub open spec fn step_outputs(ctx: ContextView, step: StepView) -> Seq<OutputView> {
    match step.payout {
        Some((address, cbtc)) => seq![
            script_output(ctx, step),
            payout_output(ctx, address, cbtc),
        ],
        None => seq![script_output(ctx, step)],
    }
}

/// Whether a completed draft is that of the transaction for a step: it spends the script
/// output with the action of the step, and beside it outputs of the wallet only. It makes the
/// new script output and pays out where the step does so, puts up the first collateral of the
/// wallet, and is signed with the operator's key.
pub open spec fn has_shape(ctx: ContextView, step: StepView, done: Draft) -> bool {
    &&& done.inputs.contains(script_input(ctx, step))
    &&& forall|i: int|
        0 <= i < done.inputs.len() && #[trigger] done.inputs[i] != script_input(ctx, step)
            ==> exists|j: int|
            0 <= j < ctx.wallet_utxos.len() && done.inputs[i] == tx_builder::wallet_input(
                #[trigger] ctx.wallet_utxos[j],
            )
    &&& done.outputs == step_outputs(ctx, step)
    &&& done.collaterals == seq![first_collateral(ctx.wallet_utxos)->Some_0]
    &&& done.signers == seq![ctx.operator_pkh]
    &&& done.signing_keys == seq![ctx.operator_skey]
}

/// What the draft for a step is completed to has the shape that the step asks for.
proof fn lemma_completion_shape(ctx: ContextView, step: StepView, done: Draft)
    requires
        tx_builder::is_completion(
            contract_draft(ctx, step, first_collateral(ctx.wallet_utxos)->Some_0),
            done,
        ),
    ensures
        has_shape(ctx, step, done),
{
    let collateral = first_collateral(ctx.wallet_utxos)->Some_0;
    let d = contract_draft(ctx, step, collateral);
    assert(d.all_inputs() =~= seq![script_input(ctx, step)]);
    assert(d.all_outputs() =~= step_outputs(ctx, step));
    assert(d.all_collaterals() =~= seq![collateral]);
    assert(done.inputs.contains(d.all_inputs()[0]));
    assert forall|i: int|
        0 <= i < done.inputs.len() && #[trigger] done.inputs[i] != script_input(
            ctx,
            step,
        ) implies exists|j: int|
        0 <= j < ctx.wallet_utxos.len() && done.inputs[i] == tx_builder::wallet_input(
            #[trigger] ctx.wallet_utxos[j],
        ) by {
        if d.all_inputs().contains(done.inputs[i]) {
            let k = choose|k: int| 0 <= k < d.all_inputs().len() && d.all_inputs()[k]
                == done.inputs[i];
            assert(k == 0);
        }
        assert(d.spare == ctx.wallet_utxos);
    }
}

/// Every transaction that was signed for a step has the shape that the step asks for.
pub proof fn lemma_transaction_shape(ctx: ContextView, step: StepView, hex: Seq<char>)
    requires
        step_yields(ctx, step, Ok(hex)),
    ensures
        first_collateral(ctx.wallet_utxos) is Some,
        exists|done: Draft| #[trigger]
            tx_builder::signs(done, Ok(hex)) && has_shape(ctx, step, done),
{
    let d = contract_draft(ctx, step, first_collateral(ctx.wallet_utxos)->Some_0);
    let done = choose|done: Draft|
        tx_builder::is_completion(d, done) && #[trigger] tx_builder::completes(d, Ok(done))
            && tx_builder::signs(done, Ok(hex));
    lemma_completion_shape(ctx, step, done);
    assert(tx_builder::signs(done, Ok(hex)));
}

/// Two transactions for one context and step agree in all but the outputs of the wallet that
/// they spend: both unlock the script output with the same redeemer, and their outputs, datum,
/// collateral, signer and all the rest are the same. Without collateral, both are refused in
/// the same words.
pub proof fn lemma_transactions_agree(
    ctx: ContextView,
    step: StepView,
    r1: Result<Seq<char>, ErrorView>,
    r2: Result<Seq<char>, ErrorView>,
)
    requires
        step_yields(ctx, step, r1),
        step_yields(ctx, step, r2),
    ensures
        first_collateral(ctx.wallet_utxos) is None ==> r1 == r2,
        r1 is Ok && r2 is Ok ==> exists|a: Draft, b: Draft| #[trigger]
            tx_builder::signs(a, Ok(r1->Ok_0)) && #[trigger] tx_builder::signs(b, Ok(r2->Ok_0))
                && has_shape(ctx, step, a) && has_shape(ctx, step, b) && a == (Draft {
                inputs: a.inputs,
                ..b
            }),
{
    if r1 is Ok && r2 is Ok {
        let d = contract_draft(ctx, step, first_collateral(ctx.wallet_utxos)->Some_0);
        let a = choose|a: Draft|
            tx_builder::is_completion(d, a) && #[trigger] tx_builder::completes(d, Ok(a))
                && tx_builder::signs(a, Ok(r1->Ok_0));
        let b = choose|b: Draft|
            tx_builder::is_completion(d, b) && #[trigger] tx_builder::completes(d, Ok(b))
                && tx_builder::signs(b, Ok(r2->Ok_0));
        lemma_completion_shape(ctx, step, a);
        lemma_completion_shape(ctx, step, b);
        assert(tx_builder::signs(a, Ok(r1->Ok_0)) && tx_builder::signs(b, Ok(r2->Ok_0)));
    }
}

} // verus!

//! Transactions, as the `whisky` SDK builds them.
//!
//! The types here hold what the library hands to the SDK as plain values, and [`Draft`] is
//! the model of what a `whisky::TxBuilder` holds. The functions are the SDK's own methods.

use crate::cbor::CborView;
use crate::{address, base16, cbor, digits, text};
use serde_json::Number;
use vstd::prelude::*;
use vstd::utf8::*;

verus! {

/// An amount of one kind of asset.
#[derive(Debug, PartialEq)]
pub struct Amount {
    /// `lovelace`, or the policy and the name of a native token.
    pub unit: String,
    /// The amount, in decimal.
    pub quantity: String,
}

/// An unspent transaction output.
#[derive(Debug, PartialEq)]
pub struct Utxo {
    pub tx_hash: String,
    pub output_index: u32,
    pub address: String,
    pub amount: Vec<Amount>,
}

/// The network that a transaction is built for. It decides the cost models.
#[derive(Debug, PartialEq)]
pub enum Network {
    Mainnet,
    Preprod,
    Preview,
    Custom(Vec<Vec<i64>>),
}

/// Protocol parameters for the calculation of fees. Numbers with a fraction are held by
/// their text in JSON.
#[derive(Debug, PartialEq)]
pub struct ProtocolParams {
    pub epoch: i32,
    pub min_fee_a: u64,
    pub min_fee_b: u64,
    pub max_block_size: i32,
    pub max_tx_size: u32,
    pub max_block_header_size: i32,
    pub key_deposit: u64,
    pub pool_deposit: u64,
    pub decentralisation: String,
    pub min_pool_cost: String,
    pub price_mem: String,
    pub price_step: String,
    pub max_tx_ex_mem: String,
    pub max_tx_ex_steps: String,
    pub max_block_ex_mem: String,
    pub max_block_ex_steps: String,
    pub max_val_size: u32,
    pub collateral_percent: String,
    pub max_collateral_inputs: i32,
    pub coins_per_utxo_size: u64,
    pub min_fee_ref_script_cost_per_byte: u64,
}

/// What a script is run with: its argument as CBOR hex, and what the run may cost.
#[derive(Debug, PartialEq)]
pub struct Redeemer {
    pub data: String,
    pub mem: u64,
    pub steps: u64,
}

/// The model of an [`Amount`].
pub struct AmountView {
    pub unit: Seq<char>,
    pub quantity: Seq<char>,
}

/// The model of a [`Utxo`].
pub struct UtxoView {
    pub tx_hash: Seq<char>,
    pub output_index: u32,
    pub address: Seq<char>,
    pub amount: Seq<AmountView>,
}

/// The model of a [`Network`].
pub enum NetworkView {
    Mainnet,
    Preprod,
    Preview,
    Custom(Seq<Seq<i64>>),
}

/// The model of [`ProtocolParams`].
pub struct ProtocolView {
    pub epoch: i32,
    pub min_fee_a: u64,
    pub min_fee_b: u64,
    pub max_block_size: i32,
    pub max_tx_size: u32,
    pub max_block_header_size: i32,
    pub key_deposit: u64,
    pub pool_deposit: u64,
    pub decentralisation: Seq<char>,
    pub min_pool_cost: Seq<char>,
    pub price_mem: Seq<char>,
    pub price_step: Seq<char>,
    pub max_tx_ex_mem: Seq<char>,
    pub max_tx_ex_steps: Seq<char>,
    pub max_block_ex_mem: Seq<char>,
    pub max_block_ex_steps: Seq<char>,
    pub max_val_size: u32,
    pub collateral_percent: Seq<char>,
    pub max_collateral_inputs: i32,
    pub coins_per_utxo_size: u64,
    pub min_fee_ref_script_cost_per_byte: u64,
}

/// The model of a [`Redeemer`].
pub struct RedeemerView {
    pub data: Seq<char>,
    pub mem: u64,
    pub steps: u64,
}

/// An input of a transaction.
pub struct InputView {
    pub spent: UtxoView,
    /// Whether a Plutus script guards it.
    pub guarded: bool,
    /// Whether its datum stands in the output that it spends.
    pub inline_datum: bool,
    pub redeemer: Option<RedeemerView>,
    pub script: Option<Seq<char>>,
}

/// An output of a transaction.
pub struct OutputView {
    pub address: Seq<char>,
    pub amount: Seq<AmountView>,
    pub inline_datum: Option<Seq<char>>,
}

/// What a transaction builder holds: the parts of a transaction that were given to it. The
/// last input, output and collateral wait for more to be said of them.
pub struct Draft {
    pub protocol: Option<ProtocolView>,
    pub network: Option<NetworkView>,
    /// Whether the next input is one that a script guards.
    pub guard_next: bool,
    pub last_input: Option<InputView>,
    pub inputs: Seq<InputView>,
    pub last_output: Option<OutputView>,
    pub outputs: Seq<OutputView>,
    pub last_collateral: Option<UtxoView>,
    pub collaterals: Seq<UtxoView>,
    pub total_collateral: Option<Seq<char>>,
    pub collateral_return: Option<Seq<char>>,
    pub signers: Seq<Seq<char>>,
    pub change_address: Seq<char>,
    /// Outputs that may be spent to cover what is missing.
    pub spare: Seq<UtxoView>,
    /// How much lovelace is to be covered beside the outputs.
    pub threshold: u64,
    pub signing_keys: Seq<Seq<char>>,
}

impl View for Amount {
    type V = AmountView;

    open spec fn view(&self) -> AmountView {
        AmountView { unit: self.unit@, quantity: self.quantity@ }
    }
}

/// The models of some assets.
pub open spec fn amounts_view(assets: Seq<Amount>) -> Seq<AmountView> {
    Seq::new(assets.len(), |i: int| assets[i]@)
}

impl View for Utxo {
    type V = UtxoView;

    open spec fn view(&self) -> UtxoView {
        UtxoView {
            tx_hash: self.tx_hash@,
            output_index: self.output_index,
            address: self.address@,
            amount: amounts_view(self.amount@),
        }
    }
}

/// The models of some unspent outputs.
pub open spec fn utxos_view(utxos: Seq<Utxo>) -> Seq<UtxoView> {
    Seq::new(utxos.len(), |i: int| utxos[i]@)
}

impl View for Network {
    type V = NetworkView;

    open spec fn view(&self) -> NetworkView {
        match self {
            Network::Mainnet => NetworkView::Mainnet,
            Network::Preprod => NetworkView::Preprod,
            Network::Preview => NetworkView::Preview,
            Network::Custom(models) => NetworkView::Custom(
                Seq::new(models@.len(), |i: int| models@[i]@),
            ),
        }
    }
}

impl View for ProtocolParams {
    type V = ProtocolView;

    open spec fn view(&self) -> ProtocolView {
        ProtocolView {
            epoch: self.epoch,
            min_fee_a: self.min_fee_a,
            min_fee_b: self.min_fee_b,
            max_block_size: self.max_block_size,
            max_tx_size: self.max_tx_size,
            max_block_header_size: self.max_block_header_size,
            key_deposit: self.key_deposit,
            pool_deposit: self.pool_deposit,
            decentralisation: self.decentralisation@,
            min_pool_cost: self.min_pool_cost@,
            price_mem: self.price_mem@,
            price_step: self.price_step@,
            max_tx_ex_mem: self.max_tx_ex_mem@,
            max_tx_ex_steps: self.max_tx_ex_steps@,
            max_block_ex_mem: self.max_block_ex_mem@,
            max_block_ex_steps: self.max_block_ex_steps@,
            max_val_size: self.max_val_size,
            collateral_percent: self.collateral_percent@,
            max_collateral_inputs: self.max_collateral_inputs,
            coins_per_utxo_size: self.coins_per_utxo_size,
            min_fee_ref_script_cost_per_byte: self.min_fee_ref_script_cost_per_byte,
        }
    }
}

impl View for Redeemer {
    type V = RedeemerView;

    open spec fn view(&self) -> RedeemerView {
        RedeemerView { data: self.data@, mem: self.mem, steps: self.steps }
    }
}

impl Clone for Network {
    fn clone(&self) -> (r: Network)
        ensures
            r@ == self@,
    {
        match self {
            Network::Mainnet => Network::Mainnet,
            Network::Preprod => Network::Preprod,
            Network::Preview => Network::Preview,
            Network::Custom(models) => {
                let mut copies: Vec<Vec<i64>> = Vec::new();
                let mut i: usize = 0;
                while i < models.len()
                    invariant
                        i <= models.len(),
                        copies.len() == i,
                        forall|k: int| 0 <= k < i ==> (#[trigger] copies[k])@ == models[k]@,
                    decreases models.len() - i,
                {
                    let mut copy: Vec<i64> = Vec::new();
                    let mut j: usize = 0;
                    while j < models[i].len()
                        invariant
                            i < models.len(),
                            j <= models[i as int].len(),
                            copy@ == models[i as int]@.take(j as int),
                        decreases models[i as int].len() - j,
                    {
                        copy.push(models[i][j]);
                        j = j + 1;
                    }
                    assert(copy@ =~= models[i as int]@);
                    copies.push(copy);
                    i = i + 1;
                }
                let r = Network::Custom(copies);
                assert(r@->Custom_0 =~= self@->Custom_0);
                r
            },
        }
    }
}

impl Clone for ProtocolParams {
    fn clone(&self) -> (r: ProtocolParams)
        ensures
            r@ == self@,
    {
        ProtocolParams {
            epoch: self.epoch,
            min_fee_a: self.min_fee_a,
            min_fee_b: self.min_fee_b,
            max_block_size: self.max_block_size,
            max_tx_size: self.max_tx_size,
            max_block_header_size: self.max_block_header_size,
            key_deposit: self.key_deposit,
            pool_deposit: self.pool_deposit,
            decentralisation: self.decentralisation.clone(),
            min_pool_cost: self.min_pool_cost.clone(),
            price_mem: self.price_mem.clone(),
            price_step: self.price_step.clone(),
            max_tx_ex_mem: self.max_tx_ex_mem.clone(),
            max_tx_ex_steps: self.max_tx_ex_steps.clone(),
            max_block_ex_mem: self.max_block_ex_mem.clone(),
            max_block_ex_steps: self.max_block_ex_steps.clone(),
            max_val_size: self.max_val_size,
            collateral_percent: self.collateral_percent.clone(),
            max_collateral_inputs: self.max_collateral_inputs,
            coins_per_utxo_size: self.coins_per_utxo_size,
            min_fee_ref_script_cost_per_byte: self.min_fee_ref_script_cost_per_byte,
        }
    }
}

/// The double that `serde_json::Number::as_f64` gives for the number that a text is parsed as,
/// by the text that `Debug` prints of it. It is zero where the text is no JSON number, and where
/// the number is too large to be a finite double.
pub uninterp spec fn printed_fraction(text: Seq<char>) -> Seq<char>;

/// Parameters as the SDK holds them: with doubles for their fractions.
pub open spec fn with_doubles(p: ProtocolView) -> ProtocolView {
    ProtocolView {
        decentralisation: printed_fraction(p.decentralisation),
        price_mem: printed_fraction(p.price_mem),
        price_step: printed_fraction(p.price_step),
        collateral_percent: printed_fraction(p.collateral_percent),
        ..p
    }
}

/// The model of parameters that may be missing.
pub open spec fn protocol_view(p: Option<ProtocolParams>) -> Option<ProtocolView> {
    match p {
        Some(p) => Some(p@),
        None => None,
    }
}

impl Draft {
    /// All inputs, the last one among them.
    pub open spec fn all_inputs(self) -> Seq<InputView> {
        match self.last_input {
            Some(input) => self.inputs.push(input),
            None => self.inputs,
        }
    }

    /// All outputs, the last one among them.
    pub open spec fn all_outputs(self) -> Seq<OutputView> {
        match self.last_output {
            Some(output) => self.outputs.push(output),
            None => self.outputs,
        }
    }

    /// All collaterals, the last one among them.
    pub open spec fn all_collaterals(self) -> Seq<UtxoView> {
        match self.last_collateral {
            Some(collateral) => self.collaterals.push(collateral),
            None => self.collaterals,
        }
    }
}

/// A builder that nothing was given to.
pub open spec fn empty_draft() -> Draft {
    Draft {
        protocol: None,
        network: None,
        guard_next: false,
        last_input: None,
        inputs: Seq::empty(),
        last_output: None,
        outputs: Seq::empty(),
        last_collateral: None,
        collaterals: Seq::empty(),
        total_collateral: None,
        collateral_return: None,
        signers: Seq::empty(),
        change_address: Seq::empty(),
        spare: Seq::empty(),
        threshold: 5_000_000,
        signing_keys: Seq::empty(),
    }
}

/// Whether a unit is that of lovelace. The empty unit is.
pub open spec fn is_lovelace(unit: Seq<char>) -> bool {
    unit == "lovelace"@ || unit.len() == 0
}

/// Whether two units are the same.
pub open spec fn same_unit(a: Seq<char>, b: Seq<char>) -> bool {
    a == b || (is_lovelace(a) && is_lovelace(b))
}

/// Whether each unit can be taken apart into a policy of 56 bytes and a name.
pub open spec fn units_split(assets: Seq<AmountView>) -> bool {
    forall|i: int|
        0 <= i < assets.len() ==> (#[trigger] assets[i]).unit == "lovelace"@ || is_char_boundary(
            encode_utf8(assets[i].unit),
            56,
        )
}

/// Whether each quantity is a number.
pub open spec fn quantities_parse(assets: Seq<AmountView>) -> bool {
    forall|i: int|
        0 <= i < assets.len() ==> text::parse_u64((#[trigger] assets[i]).quantity) is Some
}

/// How much of a unit some assets hold.
pub open spec fn total(assets: Seq<AmountView>, unit: Seq<char>) -> int
    decreases assets.len(),
{
    if assets.len() == 0 {
        0
    } else {
        let before = total(assets.drop_last(), unit);
        let last = assets.last();
        if same_unit(last.unit, unit) {
            before + text::parse_u64(last.quantity)->Some_0
        } else {
            before
        }
    }
}

/// The lovelace that an output has to hold for each byte: without parameters, that of the SDK.
pub open spec fn coins_per_byte(protocol: Option<ProtocolView>) -> u64 {
    match protocol {
        Some(p) => p.coins_per_utxo_size,
        None => 4310,
    }
}

/// How much lovelace an output needs at most where it has none: the ledger asks for an amount
/// for each of its bytes and for 160 more. Beside its address, its amounts and its datum, it has
/// less than 140 bytes, and an amount has less than 100.
pub open spec fn least_lovelace(output: OutputView, coins: u64) -> int {
    coins * (300 + output.address.len() + 100 * output.amount.len() + match output.inline_datum {
        Some(data) => data.len(),
        None => 0,
    })
}

/// How much of a unit an output needs at most.
pub open spec fn needed(output: OutputView, coins: u64, unit: Seq<char>) -> int {
    if is_lovelace(unit) && total(output.amount, unit) == 0 {
        least_lovelace(output, coins)
    } else {
        total(output.amount, unit)
    }
}

/// How much of a unit some outputs need at most.
pub open spec fn outputs_total(outputs: Seq<OutputView>, coins: u64, unit: Seq<char>) -> int
    decreases outputs.len(),
{
    if outputs.len() == 0 {
        0
    } else {
        outputs_total(outputs.drop_last(), coins, unit) + needed(outputs.last(), coins, unit)
    }
}

/// Whether everything is said of an input that a script guards.
pub open spec fn is_complete(input: InputView) -> bool {
    input.guarded ==> input.inline_datum && input.redeemer is Some && input.script is Some
}

/// Whether the amounts of a draft are numbers, and small enough to be added up. Which of the
/// spare outputs are spent is for the SDK to choose, so this is asked of all of them.
pub open spec fn amounts_fit(d: Draft) -> bool {
    &&& forall|i: int|
        0 <= i < d.all_outputs().len() ==> quantities_parse((#[trigger] d.all_outputs()[i]).amount)
    &&& forall|i: int|
        0 <= i < d.all_inputs().len() ==> quantities_parse(
            (#[trigger] d.all_inputs()[i]).spent.amount,
        )
    &&& forall|i: int| 0 <= i < d.spare.len() ==> quantities_parse((#[trigger] d.spare[i]).amount)
    &&& forall|unit: Seq<char>| #[trigger]
        outputs_total(d.all_outputs(), coins_per_byte(d.protocol), unit) + (if is_lovelace(unit) {
            d.threshold as int
        } else {
            0
        }) <= u64::MAX
    &&& forall|i: int, unit: Seq<char>|
        0 <= i < d.all_inputs().len() ==> #[trigger] total(d.all_inputs()[i].spent.amount, unit)
            <= u64::MAX
}

/// Whether the SDK can read the addresses of a draft without a panic. It reads as base58 what
/// it cannot read as bech32, but for the outputs to spend.
pub open spec fn addresses_read(d: Draft) -> bool {
    &&& forall|i: int|
        0 <= i < d.all_inputs().len() ==> address::can_be_spent(
            (#[trigger] d.all_inputs()[i]).spent.address,
        )
    &&& forall|i: int|
        0 <= i < d.all_collaterals().len() ==> address::can_be_spent(
            (#[trigger] d.all_collaterals()[i]).address,
        )
    &&& forall|i: int|
        0 <= i < d.spare.len() ==> address::can_be_spent((#[trigger] d.spare[i]).address)
    &&& forall|i: int|
        0 <= i < d.all_outputs().len() ==> address::can_be_paid(
            (#[trigger] d.all_outputs()[i]).address,
        )
    &&& address::can_be_paid(d.change_address)
    &&& match d.collateral_return {
        Some(a) => address::can_be_paid(a),
        None => true,
    }
}

/// Whether the SDK can read a script without a panic: it is hexadecimal, and where it begins
/// like a byte string whose length takes up eight bytes, the length is not more than there is.
/// The SDK takes memory for it before it looks.
pub open spec fn script_reads(script: Seq<char>) -> bool {
    base16::is_hex(script) && ({
        let bytes = base16::hex_bytes(script);
        bytes.len() >= 9 && bytes[0] == 0x5b ==> digits::value_of(bytes.subrange(1, 9))
            <= bytes.len()
    })
}

/// Whether the SDK can write the cost model of Plutus V3 without a panic: it negates what is
/// below zero, which is not possible with the least of all numbers.
pub open spec fn network_writes(network: NetworkView) -> bool {
    match network {
        NetworkView::Custom(models) => models.len() > 2 ==> forall|i: int|
            0 <= i < models[2].len() ==> #[trigger] models[2][i] > i64::MIN,
        _ => true,
    }
}

/// Whether a text is CBOR hex that `ciborium` wrote for plain data, not too deeply nested. The
/// SDK panics on other data where it is not hexadecimal, or asks for more memory than there
/// is.
pub open spec fn is_data(hex: Seq<char>) -> bool {
    exists|c: CborView|
        cbor::is_plain(c) && cbor::depth(c) <= cbor::MAX_DEPTH && hex == base16::hex_text(
            #[trigger] cbor::encoded_cbor(c),
        )
}

/// Whether all redeemers and datums of a draft are data.
pub open spec fn data_reads(d: Draft) -> bool {
    &&& forall|i: int|
        0 <= i < d.all_inputs().len() ==> match (#[trigger] d.all_inputs()[i]).redeemer {
            Some(redeemer) => is_data(redeemer.data),
            None => true,
        }
    &&& forall|i: int|
        0 <= i < d.all_outputs().len() ==> match (#[trigger] d.all_outputs()[i]).inline_datum {
            Some(data) => is_data(data),
            None => true,
        }
}

/// Whether the parts of a draft, but for its data, can be completed without a panic: nothing
/// is missing that they need, addresses, scripts, units and amounts can be read, the cost model
/// can be written, and the collateral is a number.
pub open spec fn parts_fit(d: Draft) -> bool {
    &&& forall|i: int| 0 <= i < d.all_inputs().len() ==> is_complete(#[trigger] d.all_inputs()[i])
    &&& addresses_read(d)
    &&& forall|i: int|
        0 <= i < d.all_inputs().len() ==> match (#[trigger] d.all_inputs()[i]).script {
            Some(script) => script_reads(script),
            None => true,
        }
    &&& match d.network {
        Some(network) => network_writes(network),
        None => true,
    }
    &&& d.spare.len() > 0 ==> amounts_fit(d)
    &&& forall|i: int|
        0 <= i < d.all_inputs().len() ==> units_split((#[trigger] d.all_inputs()[i]).spent.amount)
    &&& forall|i: int|
        0 <= i < d.all_outputs().len() ==> units_split((#[trigger] d.all_outputs()[i]).amount)
    &&& forall|i: int|
        0 <= i < d.all_collaterals().len() ==> units_split(
            (#[trigger] d.all_collaterals()[i]).amount,
        )
    &&& forall|i: int| 0 <= i < d.spare.len() ==> units_split((#[trigger] d.spare[i]).amount)
    &&& match d.total_collateral {
        Some(t) => text::parse_u64(t) is Some,
        None => true,
    }
}

/// Whether a draft can be completed without a panic.
pub open spec fn can_complete(d: Draft) -> bool {
    parts_fit(d) && data_reads(d)
}

/// Whether each signing key of a draft has a prefix of four bytes.
pub open spec fn can_sign(d: Draft) -> bool {
    forall|i: int|
        0 <= i < d.signing_keys.len() ==> is_char_boundary(
            encode_utf8(#[trigger] d.signing_keys[i]),
            4,
        )
}

/// An input that spends an output of the wallet.
pub open spec fn wallet_input(u: UtxoView) -> InputView {
    InputView { spent: u, guarded: false, inline_datum: false, redeemer: None, script: None }
}

/// Whether `done` is the draft `d` with all its parts in place, and with inputs from its
/// spare outputs beside its own.
pub open spec fn is_completion(d: Draft, done: Draft) -> bool {
    &&& done == (Draft {
        last_input: None,
        inputs: done.inputs,
        last_output: None,
        outputs: d.all_outputs(),
        last_collateral: None,
        collaterals: d.all_collaterals(),
        ..d
    })
    &&& forall|i: int|
        0 <= i < d.all_inputs().len() ==> done.inputs.contains(#[trigger] d.all_inputs()[i])
    &&& forall|i: int|
        0 <= i < done.inputs.len() ==> d.all_inputs().contains(#[trigger] done.inputs[i]) || exists|
            j: int,
        |
            0 <= j < d.spare.len() && done.inputs[i] == wallet_input(#[trigger] d.spare[j])
}

/// What a builder holds.
pub uninterp spec fn contents(tx: whisky::TxBuilder) -> Draft;

/// Whether completing a draft can come out like this: with the draft that is left, or with
/// what is said of the failure.
pub uninterp spec fn completes(d: Draft, outcome: Result<Draft, Seq<char>>) -> bool;

/// Whether signing a completed draft can come out like this: with the hexadecimal text of
/// the signed transaction, or with what is said of the failure.
pub uninterp spec fn signs(d: Draft, outcome: Result<Seq<char>, Seq<char>>) -> bool;

/// The transaction builder of the SDK.
#[verifier::external_type_specification]
#[verifier::external_body]
pub struct ExTxBuilder(whisky::TxBuilder);

/// `whisky::TxBuilder::new_core`: a builder that nothing was given to.
#[verifier::external_body]
pub(crate) fn new_core() -> (tx: whisky::TxBuilder)
    ensures
        contents(tx) == empty_draft(),
{
    whisky::TxBuilder::new_core()
}

/// Sets the field `protocol_params` of `whisky::TxBuilder` to a `whisky::Protocol` with the
/// same values. The fractions become doubles with `serde_json::Number::as_f64`: a text that is
/// no number becomes zero, and so does a number that is too large for a finite double.
#[verifier::external_body]
pub(crate) fn set_protocol_params(tx: &mut whisky::TxBuilder, params: Option<ProtocolParams>)
    ensures
        contents(*final(tx)) == (Draft {
            protocol: match params {
                Some(p) => Some(
                    ProtocolView {
                        decentralisation: printed_fraction(p.decentralisation@),
                        price_mem: printed_fraction(p.price_mem@),
                        price_step: printed_fraction(p.price_step@),
                        collateral_percent: printed_fraction(p.collateral_percent@),
                        ..p@
                    },
                ),
                None => None,
            },
            ..contents(*old(tx))
        }),
{
    tx.protocol_params = params.map(|p| {
        let [decentralisation, price_mem, price_step, collateral_percent] =
            [p.decentralisation, p.price_mem, p.price_step, p.collateral_percent].map(|s|
                s.parse().ok().and_then(|n: Number| n.as_f64()).unwrap_or_default());
        whisky::Protocol { epoch: p.epoch, min_fee_a: p.min_fee_a, min_fee_b: p.min_fee_b,
            max_block_size: p.max_block_size, max_tx_size: p.max_tx_size,
            max_block_header_size: p.max_block_header_size, key_deposit: p.key_deposit,
            pool_deposit: p.pool_deposit, min_pool_cost: p.min_pool_cost, decentralisation,
            price_mem, price_step, collateral_percent, max_tx_ex_mem: p.max_tx_ex_mem,
            max_tx_ex_steps: p.max_tx_ex_steps, max_block_ex_mem: p.max_block_ex_mem,
            max_block_ex_steps: p.max_block_ex_steps, max_val_size: p.max_val_size,
            max_collateral_inputs: p.max_collateral_inputs,
            coins_per_utxo_size: p.coins_per_utxo_size,
            min_fee_ref_script_cost_per_byte: p.min_fee_ref_script_cost_per_byte } });
}

/// `whisky::TxBuilder::network`: sets the network.
#[verifier::external_body]
pub(crate) fn network(tx: &mut whisky::TxBuilder, network: &Network)
    ensures
        contents(*final(tx)) == (Draft { network: Some(network@), ..contents(*old(tx)) }),
{
    tx.network(match network {
        Network::Mainnet => whisky::Network::Mainnet,
        Network::Preprod => whisky::Network::Preprod,
        Network::Preview => whisky::Network::Preview,
        Network::Custom(models) => whisky::Network::Custom(models.clone()),
    });
}

/// `whisky::TxBuilder::spending_plutus_script_v3`: the next input is one that a Plutus V3
/// script guards.
#[verifier::external_body]
pub(crate) fn spending_plutus_script_v3(tx: &mut whisky::TxBuilder)
    ensures
        contents(*final(tx)) == (Draft { guard_next: true, ..contents(*old(tx)) }),
{
    tx.spending_plutus_script_v3();
}

/// `whisky::TxBuilder::tx_in`: begins an input.
#[verifier::external_body]
pub(crate) fn tx_in(
    tx: &mut whisky::TxBuilder,
    tx_hash: &str,
    tx_index: u32,
    amount: &[Amount],
    address: &str,
)
    requires
        contents(*old(tx)).last_input is None,
    ensures
        contents(*final(tx)) == (Draft {
            last_input: Some(
                InputView {
                    spent: UtxoView {
                        tx_hash: tx_hash@,
                        output_index: tx_index,
                        address: address@,
                        amount: amounts_view(amount@),
                    },
                    guarded: contents(*old(tx)).guard_next,
                    inline_datum: false,
                    redeemer: None,
                    script: None,
                },
            ),
            ..contents(*old(tx))
        }),
{
    let assets: Vec<_> = amount.iter().map(
        |a| whisky::Asset::new_from_str(&a.unit, &a.quantity)).collect();
    tx.tx_in(tx_hash, tx_index, &assets, address);
}

/// `whisky::TxBuilder::tx_in_inline_datum_present`: the datum of the last input stands in
/// the output that it spends. It panics unless a script guards the input.
#[verifier::external_body]
pub(crate) fn tx_in_inline_datum_present(tx: &mut whisky::TxBuilder)
    requires
        contents(*old(tx)).last_input is Some,
        contents(*old(tx)).last_input->Some_0.guarded,
    ensures
        contents(*final(tx)) == (Draft {
            last_input: Some(
                InputView { inline_datum: true, ..contents(*old(tx)).last_input->Some_0 },
            ),
            ..contents(*old(tx))
        }),
{
    tx.tx_in_inline_datum_present();
}

/// `whisky::TxBuilder::tx_in_redeemer_value`: gives the last input its redeemer. It panics
/// unless a script guards the input.
#[verifier::external_body]
pub(crate) fn tx_in_redeemer_value(tx: &mut whisky::TxBuilder, redeemer: &Redeemer)
    requires
        contents(*old(tx)).last_input is Some,
        contents(*old(tx)).last_input->Some_0.guarded,
    ensures
        contents(*final(tx)) == (Draft {
            last_input: Some(
                InputView {
                    redeemer: Some(redeemer@),
                    ..contents(*old(tx)).last_input->Some_0
                },
            ),
            ..contents(*old(tx))
        }),
{
    tx.tx_in_redeemer_value(&whisky::WRedeemer {
        data: whisky::WData::CBOR(redeemer.data.clone()),
        ex_units: whisky::Budget { mem: redeemer.mem, steps: redeemer.steps },
    });
}

/// `whisky::TxBuilder::tx_in_script`: gives the last input the script that guards it, of the
/// version that was announced; it panics if none was. The next input is an ordinary one
/// again.
#[verifier::external_body]
pub(crate) fn tx_in_script(tx: &mut whisky::TxBuilder, script_cbor: &str)
    requires
        contents(*old(tx)).last_input is Some,
        contents(*old(tx)).last_input->Some_0.guarded,
        contents(*old(tx)).guard_next,
    ensures
        contents(*final(tx)) == (Draft {
            last_input: Some(
                InputView {
                    script: Some(script_cbor@),
                    ..contents(*old(tx)).last_input->Some_0
                },
            ),
            guard_next: false,
            ..contents(*old(tx))
        }),
{
    tx.tx_in_script(script_cbor);
}

/// `whisky::TxBuilder::tx_out`: begins an output.
#[verifier::external_body]
pub(crate) fn tx_out(tx: &mut whisky::TxBuilder, address: &str, amount: &[Amount])
    ensures
        contents(*final(tx)) == (Draft {
            last_output: Some(
                OutputView {
                    address: address@,
                    amount: amounts_view(amount@),
                    inline_datum: None,
                },
            ),
            outputs: contents(*old(tx)).all_outputs(),
            ..contents(*old(tx))
        }),
{
    let assets: Vec<_> = amount.iter().map(
        |a| whisky::Asset::new_from_str(&a.unit, &a.quantity)).collect();
    tx.tx_out(address, &assets);
}

/// `whisky::TxBuilder::tx_out_inline_datum_value`: gives the last output its datum, as CBOR
/// hex. It panics if there is no output.
#[verifier::external_body]
pub(crate) fn tx_out_inline_datum_value(tx: &mut whisky::TxBuilder, data: &str)
    requires
        contents(*old(tx)).last_output is Some,
    ensures
        contents(*final(tx)) == (Draft {
            last_output: Some(
                OutputView {
                    inline_datum: Some(data@),
                    ..contents(*old(tx)).last_output->Some_0
                },
            ),
            ..contents(*old(tx))
        }),
{
    tx.tx_out_inline_datum_value(&whisky::WData::CBOR(data.to_string()));
}

/// `whisky::TxBuilder::tx_in_collateral`: begins a collateral input.
#[verifier::external_body]
pub(crate) fn tx_in_collateral(
    tx: &mut whisky::TxBuilder,
    tx_hash: &str,
    tx_index: u32,
    amount: &[Amount],
    address: &str,
)
    ensures
        contents(*final(tx)) == (Draft {
            last_collateral: Some(
                UtxoView {
                    tx_hash: tx_hash@,
                    output_index: tx_index,
                    address: address@,
                    amount: amounts_view(amount@),
                },
            ),
            collaterals: contents(*old(tx)).all_collaterals(),
            ..contents(*old(tx))
        }),
{
    let assets: Vec<_> = amount.iter().map(
        |a| whisky::Asset::new_from_str(&a.unit, &a.quantity)).collect();
    tx.tx_in_collateral(tx_hash, tx_index, &assets, address);
}

/// `whisky::TxBuilder::set_total_collateral`: sets how much collateral is put up.
#[verifier::external_body]
pub(crate) fn set_total_collateral(tx: &mut whisky::TxBuilder, collateral: &str)
    ensures
        contents(*final(tx)) == (Draft {
            total_collateral: Some(collateral@),
            ..contents(*old(tx))
        }),
{
    tx.set_total_collateral(collateral);
}

/// `whisky::TxBuilder::set_collateral_return_address`: sets where the rest of the collateral
/// goes.
#[verifier::external_body]
pub(crate) fn set_collateral_return_address(tx: &mut whisky::TxBuilder, address: &str)
    ensures
        contents(*final(tx)) == (Draft {
            collateral_return: Some(address@),
            ..contents(*old(tx))
        }),
{
    tx.set_collateral_return_address(address);
}

/// `whisky::TxBuilder::required_signer_hash`: adds the hash of a key that has to sign.
#[verifier::external_body]
pub(crate) fn required_signer_hash(tx: &mut whisky::TxBuilder, pub_key_hash: &str)
    ensures
        contents(*final(tx)) == (Draft {
            signers: contents(*old(tx)).signers.push(pub_key_hash@),
            ..contents(*old(tx))
        }),
{
    tx.required_signer_hash(pub_key_hash);
}

/// `whisky::TxBuilder::change_address`: sets where what is left over goes.
#[verifier::external_body]
pub(crate) fn change_address(tx: &mut whisky::TxBuilder, address: &str)
    ensures
        contents(*final(tx)) == (Draft { change_address: address@, ..contents(*old(tx)) }),
{
    tx.change_address(address);
}

/// `whisky::TxBuilder::select_utxos_from`: adds outputs that may be spent to cover what is
/// missing, and sets how much lovelace is to be covered beside the outputs. The outputs have
/// neither datum nor script.
#[verifier::external_body]
pub(crate) fn select_utxos_from(tx: &mut whisky::TxBuilder, utxos: &[Utxo], threshold: u64)
    ensures
        contents(*final(tx)) == (Draft {
            spare: contents(*old(tx)).spare + utxos_view(utxos@),
            threshold: threshold,
            ..contents(*old(tx))
        }),
{
    let utxos: Vec<_> = utxos.iter().map(|u| whisky::UTxO {
        input: whisky::UtxoInput { tx_hash: u.tx_hash.clone(), output_index: u.output_index },
        output: whisky::UtxoOutput {
            address: u.address.clone(),
            amount: u.amount.iter().map(
                |a| whisky::Asset::new_from_str(&a.unit, &a.quantity)).collect(),
            data_hash: None,
            plutus_data: None,
            script_ref: None,
            script_hash: None,
        },
    }).collect();
    tx.select_utxos_from(&utxos, threshold);
}

/// `whisky::TxBuilder::signing_key`: adds a key to sign with.
#[verifier::external_body]
pub(crate) fn signing_key(tx: &mut whisky::TxBuilder, skey_hex: &str)
    ensures
        contents(*final(tx)) == (Draft {
            signing_keys: contents(*old(tx)).signing_keys.push(skey_hex@),
            ..contents(*old(tx))
        }),
{
    tx.signing_key(skey_hex);
}

/// `whisky::TxBuilder::complete_sync`, without a transaction body of one's own: puts all
/// parts in place, chooses spare outputs to spend, and balances the transaction. Where it
/// succeeds, the builder holds all parts of the draft, and inputs from the spare outputs
/// beside its own. The SDK walks a hash set on the way, so what comes out is not a function
/// of the draft; when it succeeds, which spare outputs are spent and what is said of a
/// failure are not stated.
#[verifier::external_body]
pub(crate) fn complete_sync(tx: &mut whisky::TxBuilder) -> (r: Result<(), String>)
    requires
        can_complete(contents(*old(tx))),
    ensures
        match r {
            Ok(_) => completes(contents(*old(tx)), Ok(contents(*final(tx)))) && is_completion(
                contents(*old(tx)),
                contents(*final(tx)),
            ),
            Err(e) => completes(contents(*old(tx)), Err(e@)),
        },
{
    tx.complete_sync(None).map(|_| ()).map_err(|e| format!("{:?}", e))
}

/// `whisky::TxBuilder::complete_signing`: signs the completed transaction with the keys of
/// the draft, and gives it in hexadecimal. It panics on a key without a prefix of four bytes.
/// The bytes of the transaction, and when signing fails, are not stated.
#[verifier::external_body]
pub(crate) fn complete_signing(tx: &mut whisky::TxBuilder) -> (r: Result<String, String>)
    requires
        can_sign(contents(*old(tx))),
    ensures
        match r {
            Ok(hex) => signs(contents(*old(tx)), Ok(hex@)) && base16::is_hex(hex@),
            Err(e) => signs(contents(*old(tx)), Err(e@)),
        },
{
    tx.complete_signing().map_err(|e| format!("{:?}", e))
}

} // verus!

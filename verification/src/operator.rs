//! The operator's side of the client: an agent with a signing key and the script, which
//! finds the outputs to spend and builds the contract transactions.

use crate::agent::{CardanoAgent, ConfigView};
use crate::base16::decode_hex;
use crate::contract::{
    build_cancel_invoice_tx, build_create_invoice_tx, build_deposit_tx, build_fulfill_invoice_tx,
    build_withdraw_tx, ContextView, TxContext,
};
use crate::error::{CardanoError, ErrorView};
use crate::json::{Json, JsonView};
use crate::steps::StepView;
use crate::text::{joined, read_i64, read_u64, same, without_slashes};
use crate::tx_builder::{Amount, AmountView, Network, NetworkView, Utxo, UtxoView};
use crate::types::{Invoice, State, StateView};
use crate::{agent, base16, contract, error, json, steps, text, tx_builder};
use vstd::prelude::*;
use vstd::string::*;

verus! {

/// Configuration for the operator agent.
#[derive(Debug, PartialEq)]
pub struct OperatorConfig {
    /// Operator's signing key (hex, ed25519 or CBOR envelope).
    pub skey_hex: String,
    /// Operator's Cardano address (bech32).
    pub operator_address: String,
    /// Operator's payment key hash (hex).
    pub operator_pkh: String,
    /// Applied Plutus script CBOR hex.
    pub script_cbor: String,
    /// cBTC policy ID (hex).
    pub cbtc_policy: String,
    /// cBTC asset name (hex).
    pub cbtc_name: String,
}

/// The model of an [`OperatorConfig`].
pub struct OperatorView {
    pub skey_hex: Seq<char>,
    pub operator_address: Seq<char>,
    pub operator_pkh: Seq<char>,
    pub script_cbor: Seq<char>,
    pub cbtc_policy: Seq<char>,
    pub cbtc_name: Seq<char>,
}

impl View for OperatorConfig {
    type V = OperatorView;

    open spec fn view(&self) -> OperatorView {
        OperatorView {
            skey_hex: self.skey_hex@,
            operator_address: self.operator_address@,
            operator_pkh: self.operator_pkh@,
            script_cbor: self.script_cbor@,
            cbtc_policy: self.cbtc_policy@,
            cbtc_name: self.cbtc_name@,
        }
    }
}

impl Clone for OperatorConfig {
    fn clone(&self) -> (r: OperatorConfig)
        ensures
            r@ == self@,
    {
        OperatorConfig {
            skey_hex: self.skey_hex.clone(),
            operator_address: self.operator_address.clone(),
            operator_pkh: self.operator_pkh.clone(),
            script_cbor: self.script_cbor.clone(),
            cbtc_policy: self.cbtc_policy.clone(),
            cbtc_name: self.cbtc_name.clone(),
        }
    }
}

/// Where the script output lies and what it holds.
#[derive(Debug, PartialEq)]
pub struct ScriptUtxo {
    pub tx_hash: String,
    pub tx_index: u32,
    pub lovelace: u64,
    pub cbtc_amount: i64,
}

/// The model of a [`ScriptUtxo`].
pub struct ScriptUtxoView {
    pub tx_hash: Seq<char>,
    pub tx_index: u32,
    pub lovelace: u64,
    pub cbtc_amount: i64,
}

impl View for ScriptUtxo {
    type V = ScriptUtxoView;

    open spec fn view(&self) -> ScriptUtxoView {
        ScriptUtxoView {
            tx_hash: self.tx_hash@,
            tx_index: self.tx_index,
            lovelace: self.lovelace,
            cbtc_amount: self.cbtc_amount,
        }
    }
}

/// The script output with the pool state, as needed for building transactions.
#[derive(Debug, PartialEq)]
pub struct ScriptUtxoInfo {
    pub tx_hash: String,
    pub tx_index: u32,
    pub lovelace: u64,
    pub cbtc_amount: i64,
    pub state: State,
}

/// The model of a [`ScriptUtxoInfo`].
pub struct InfoView {
    pub tx_hash: Seq<char>,
    pub tx_index: u32,
    pub lovelace: u64,
    pub cbtc_amount: i64,
    pub state: StateView,
}

impl View for ScriptUtxoInfo {
    type V = InfoView;

    open spec fn view(&self) -> InfoView {
        InfoView {
            tx_hash: self.tx_hash@,
            tx_index: self.tx_index,
            lovelace: self.lovelace,
            cbtc_amount: self.cbtc_amount,
            state: self.state@,
        }
    }
}

impl ScriptUtxo {
    /// Puts the pool state beside the script output.
    pub fn with_state(self, state: State) -> (r: ScriptUtxoInfo)
        ensures
            r@ == (InfoView {
                tx_hash: self@.tx_hash,
                tx_index: self.tx_index,
                lovelace: self.lovelace,
                cbtc_amount: self.cbtc_amount,
                state: state@,
            }),
    {
        ScriptUtxoInfo {
            tx_hash: self.tx_hash,
            tx_index: self.tx_index,
            lovelace: self.lovelace,
            cbtc_amount: self.cbtc_amount,
            state,
        }
    }
}

/// The string under `key`, or a default.
pub open spec fn string_or(j: JsonView, key: Seq<char>, default: Seq<char>) -> Seq<char> {
    match json::string_at(j, key) {
        Some(s) => s,
        None => default,
    }
}

/// Reads the string under `key`, or a default.
fn get_str_or<'a>(j: &'a Json, key: &str, default: &'a str) -> (r: &'a str)
    ensures
        r@ == string_or(j@, key@, default@),
{
    match j.get_str(key) {
        Some(s) => s,
        None => default,
    }
}

/// The index of an output in its transaction: `output_index`, or `tx_index` where the first
/// is missing.
pub open spec fn index_of(utxo: JsonView) -> Option<u64> {
    match json::member(utxo, "output_index"@) {
        Some(v) => json::unsigned(v),
        None => json::unsigned_at(utxo, "tx_index"@),
    }
}

/// Reads the index of an output in its transaction.
fn get_index(utxo: &Json) -> (r: Option<u64>)
    ensures
        r == index_of(utxo@),
{
    match utxo.get("output_index") {
        Some(v) => v.as_u64(),
        None => utxo.get_u64("tx_index"),
    }
}

/// The lovelace and the cBTC among some amounts. The last amount of a unit counts, and one
/// that is no number counts as zero.
pub open spec fn amounts_of(items: Seq<JsonView>, cbtc_unit: Seq<char>) -> (u64, i64)
    decreases items.len(),
{
    if items.len() == 0 {
        (0, 0)
    } else {
        let (lovelace, cbtc) = amounts_of(items.drop_last(), cbtc_unit);
        let unit = string_or(items.last(), "unit"@, ""@);
        let quantity = string_or(items.last(), "quantity"@, "0"@);
        if unit == "lovelace"@ {
            (
                match text::parse_u64(quantity) {
                    Some(n) => n,
                    None => 0,
                },
                cbtc,
            )
        } else if unit == cbtc_unit {
            (
                lovelace,
                match text::parse_i64(quantity) {
                    Some(n) => n,
                    None => 0,
                },
            )
        } else {
            (lovelace, cbtc)
        }
    }
}

/// The lovelace and the cBTC of an unspent output.
pub open spec fn utxo_amounts(utxo: JsonView, cbtc_unit: Seq<char>) -> (u64, i64) {
    match json::items_at(utxo, "amount"@) {
        Some(items) => amounts_of(items, cbtc_unit),
        None => (0, 0),
    }
}

/// Parses the lovelace and cBTC amounts of an unspent output.
pub fn parse_utxo_amounts(utxo: &Json, config: &OperatorConfig) -> (r: (u64, i64))
    ensures
        r == utxo_amounts(utxo@, config@.cbtc_policy + config@.cbtc_name),
{
    let cbtc_unit = joined(config.cbtc_policy.as_str(), config.cbtc_name.as_str());
    let mut lovelace: u64 = 0;
    let mut cbtc: i64 = 0;
    if let Some(amounts) = utxo.get_array("amount") {
        let ghost views = json::array_view(amounts@);
        proof {
            json::lemma_array_view(amounts@);
            assert(views.take(0) =~= Seq::empty());
        }
        let mut i: usize = 0;
        while i < amounts.len()
            invariant
                i <= amounts.len(),
                views == json::array_view(amounts@),
                views.len() == amounts.len(),
                forall|k: int| 0 <= k < amounts.len() ==> #[trigger] views[k] == amounts[k]@,
                (lovelace, cbtc) == amounts_of(views.take(i as int), cbtc_unit@),
            decreases amounts.len() - i,
        {
            assert(views.take(i + 1).drop_last() =~= views.take(i as int));
            assert(views.take(i + 1).last() == amounts[i as int]@);
            let unit = get_str_or(&amounts[i], "unit", "");
            let quantity = get_str_or(&amounts[i], "quantity", "0");
            if same(unit, "lovelace") {
                lovelace = match read_u64(quantity) {
                    Some(n) => n,
                    None => 0,
                };
            } else if same(unit, cbtc_unit.as_str()) {
                cbtc = match read_i64(quantity) {
                    Some(n) => n,
                    None => 0,
                };
            }
            i = i + 1;
        }
        assert(views.take(i as int) =~= views);
    }
    (lovelace, cbtc)
}

/// The script output among some unspent outputs: the first with an inline datum.
pub open spec fn script_utxo_of(utxos: Seq<JsonView>, cbtc_unit: Seq<char>) -> Result<
    ScriptUtxoView,
    ErrorView,
>
    decreases utxos.len(),
{
    if utxos.len() == 0 {
        Err(ErrorView::NotFound("no script UTxO with inline datum found"@))
    } else if agent::inline_datum(utxos[0]) is None {
        script_utxo_of(utxos.skip(1), cbtc_unit)
    } else if json::string_at(utxos[0], "tx_hash"@) is None {
        Err(ErrorView::Parse("missing tx_hash"@))
    } else if index_of(utxos[0]) is None {
        Err(ErrorView::Parse("missing output_index"@))
    } else {
        Ok(
            ScriptUtxoView {
                tx_hash: json::string_at(utxos[0], "tx_hash"@)->Some_0,
                tx_index: index_of(utxos[0])->Some_0 as u32,
                lovelace: utxo_amounts(utxos[0], cbtc_unit).0,
                cbtc_amount: utxo_amounts(utxos[0], cbtc_unit).1,
            },
        )
    }
}

/// An amount as the API lists it. Without a unit it is lovelace, and without a quantity zero.
pub open spec fn wallet_amount(j: JsonView) -> AmountView {
    AmountView {
        unit: string_or(j, "unit"@, "lovelace"@),
        quantity: string_or(j, "quantity"@, "0"@),
    }
}

/// An unspent output of the wallet as the API lists it. Without an index it is the first.
pub open spec fn wallet_utxo(j: JsonView, address: Seq<char>) -> UtxoView {
    UtxoView {
        tx_hash: string_or(j, "tx_hash"@, ""@),
        output_index: match index_of(j) {
            Some(n) => n as u32,
            None => 0,
        },
        address,
        amount: match json::items_at(j, "amount"@) {
            Some(items) => Seq::new(items.len(), |i: int| wallet_amount(items[i])),
            None => Seq::empty(),
        },
    }
}

/// Reads the amounts of an unspent output of the wallet.
fn read_amounts(raw: &Json) -> (r: Vec<Amount>)
    ensures
        tx_builder::amounts_view(r@) == wallet_utxo(raw@, Seq::empty()).amount,
{
    let mut r: Vec<Amount> = Vec::new();
    if let Some(items) = raw.get_array("amount") {
        proof {
            json::lemma_array_view(items@);
        }
        let ghost views = json::array_view(items@);
        let mut i: usize = 0;
        while i < items.len()
            invariant
                i <= items.len(),
                r.len() == i,
                views == json::array_view(items@),
                views.len() == items.len(),
                forall|k: int| 0 <= k < items.len() ==> #[trigger] views[k] == items[k]@,
                forall|k: int| 0 <= k < i ==> (#[trigger] r[k])@ == wallet_amount(views[k]),
            decreases items.len() - i,
        {
            assert(views[i as int] == items[i as int]@);
            let unit = get_str_or(&items[i], "unit", "lovelace");
            let quantity = get_str_or(&items[i], "quantity", "0");
            r.push(Amount { unit: unit.to_owned(), quantity: quantity.to_owned() });
            i = i + 1;
        }
    }
    assert(tx_builder::amounts_view(r@) =~= wallet_utxo(raw@, Seq::empty()).amount);
    r
}

/// Where a transaction is submitted.
pub open spec fn submit_url(base: Seq<char>) -> Seq<char> {
    text::trim_slashes(base) + "/tx/submit"@
}

/// What is said where the API refuses a transaction.
pub fn submit_error(status: &str, body: &str) -> (r: CardanoError)
    ensures
        r@ == ErrorView::Parse("tx submit failed "@ + status@ + ": "@ + body@),
{
    let mut message = joined("tx submit failed ", status);
    message.append(": ");
    message.append(body);
    CardanoError::Parse(message)
}

/// A request that submits a transaction.
#[derive(Debug, PartialEq)]
pub struct Submission {
    pub url: String,
    /// The transaction itself.
    pub body: Vec<u8>,
}

/// The model of a [`Submission`].
pub struct SubmissionView {
    pub url: Seq<char>,
    pub body: Seq<u8>,
}

impl View for Submission {
    type V = SubmissionView;

    open spec fn view(&self) -> SubmissionView {
        SubmissionView { url: self.url@, body: self.body@ }
    }
}

/// The request that submits a signed transaction.
pub open spec fn submission(base: Seq<char>, tx_hex: Seq<char>) -> Result<
    SubmissionView,
    ErrorView,
> {
    if base16::is_hex(tx_hex) {
        Ok(SubmissionView { url: submit_url(base), body: base16::hex_bytes(tx_hex) })
    } else {
        Err(ErrorView::Parse("invalid tx hex: "@ + base16::hex_error(tx_hex)))
    }
}

/// Operator agent: an agent with the operator's key and the script.
pub struct OperatorAgent {
    agent: CardanoAgent,
    config: OperatorConfig,
    network: Network,
}

/// The context of the transactions that an operator builds.
pub open spec fn context_of(
    cardano: ConfigView,
    operator: OperatorView,
    network: NetworkView,
    info: InfoView,
    wallet: Seq<UtxoView>,
) -> ContextView {
    ContextView {
        script_tx_hash: info.tx_hash,
        script_tx_index: info.tx_index,
        script_lovelace: info.lovelace,
        script_cbtc: info.cbtc_amount,
        script_address: cardano.script_address,
        script_cbor: operator.script_cbor,
        operator_address: operator.operator_address,
        operator_pkh: operator.operator_pkh,
        operator_skey: operator.skey_hex,
        cbtc_policy: operator.cbtc_policy,
        cbtc_name: operator.cbtc_name,
        wallet_utxos: wallet,
        network,
        protocol_params: None,
    }
}

impl OperatorAgent {
    /// The configuration of the agent that reads the contract.
    pub closed spec fn agent_view(&self) -> ConfigView {
        self.agent.config_view()
    }

    /// The configuration of the operator.
    pub closed spec fn config_view(&self) -> OperatorView {
        self.config@
    }

    /// The network that transactions are built for.
    pub closed spec fn network_view(&self) -> NetworkView {
        self.network@
    }

    /// The context of the transactions that this operator builds.
    pub open spec fn context(&self, info: InfoView, wallet: Seq<UtxoView>) -> ContextView {
        context_of(self.agent_view(), self.config_view(), self.network_view(), info, wallet)
    }

    /// Makes an operator agent for the main network.
    pub fn new(agent: CardanoAgent, config: OperatorConfig) -> (r: OperatorAgent)
        ensures
            r.agent_view() == agent.config_view(),
            r.config_view() == config@,
            r.network_view() == NetworkView::Mainnet,
    {
        OperatorAgent { agent, config, network: Network::Mainnet }
    }

    /// Takes over the cost models of the chain. To be called once after construction.
    pub fn init(&mut self, cost_models: Vec<Vec<i64>>)
        ensures
            final(self).network_view() == Network::Custom(cost_models)@,
            final(self).agent_view() == old(self).agent_view(),
            final(self).config_view() == old(self).config_view(),
    {
        self.network = Network::Custom(cost_models);
    }

    /// The agent that reads the contract.
    pub fn agent(&self) -> (r: &CardanoAgent)
        ensures
            r.config_view() == self.agent_view(),
    {
        &self.agent
    }

    /// The configuration of the operator.
    pub fn config(&self) -> (r: &OperatorConfig)
        ensures
            r@ == self.config_view(),
    {
        &self.config
    }

    /// Finds the script output among the unspent outputs at the script address.
    pub fn query_script_utxo(&self, utxos: &Vec<Json>) -> (r: Result<ScriptUtxo, CardanoError>)
        ensures
            error::outcome(r) == script_utxo_of(
                json::array_view(utxos@),
                self.config_view().cbtc_policy + self.config_view().cbtc_name,
            ),
    {
        let ghost views = json::array_view(utxos@);
        let ghost unit = self.config@.cbtc_policy + self.config@.cbtc_name;
        proof {
            json::lemma_array_view(utxos@);
            assert(views.skip(0) =~= views);
        }
        let mut i: usize = 0;
        while i < utxos.len()
            invariant
                i <= utxos.len(),
                views == json::array_view(utxos@),
                views.len() == utxos.len(),
                forall|k: int| 0 <= k < utxos.len() ==> #[trigger] views[k] == utxos[k]@,
                unit == self.config@.cbtc_policy + self.config@.cbtc_name,
                script_utxo_of(views, unit) == script_utxo_of(views.skip(i as int), unit),
            decreases utxos.len() - i,
        {
            assert(views.skip(i as int)[0] == views[i as int]);
            assert(views.skip(i as int).skip(1) =~= views.skip(i + 1));
            let has_datum = match utxos[i].get("inline_datum") {
                Some(d) => !d.is_null(),
                None => false,
            };
            if has_datum {
                let tx_hash = match utxos[i].get_str("tx_hash") {
                    Some(s) => s.to_owned(),
                    None => {
                        return Err(CardanoError::parse("missing tx_hash"));
                    },
                };
                let tx_index: u32 = match get_index(&utxos[i]) {
                    Some(n) => n as u32,
                    None => {
                        return Err(CardanoError::parse("missing output_index"));
                    },
                };
                let (lovelace, cbtc_amount): (u64, i64) = parse_utxo_amounts(
                    &utxos[i],
                    &self.config,
                );
                return Ok(ScriptUtxo { tx_hash, tx_index, lovelace, cbtc_amount });
            }
            i = i + 1;
        }
        Err(CardanoError::not_found("no script UTxO with inline datum found"))
    }

    /// Reads the unspent outputs of the operator's wallet. Where the API refuses to list
    /// them, there are none.
    pub fn query_wallet_utxos(&self, raw_utxos: Option<&Vec<Json>>) -> (r: Vec<Utxo>)
        ensures
            tx_builder::utxos_view(r@) == match raw_utxos {
                Some(raw) => Seq::new(
                    raw@.len(),
                    |i: int| wallet_utxo(raw@[i]@, self.config_view().operator_address),
                ),
                None => Seq::empty(),
            },
    {
        let mut r: Vec<Utxo> = Vec::new();
        if let Some(raw) = raw_utxos {
            let mut i: usize = 0;
            while i < raw.len()
                invariant
                    i <= raw.len(),
                    r.len() == i,
                    forall|k: int|
                        0 <= k < i ==> (#[trigger] r[k])@ == wallet_utxo(
                            raw[k]@,
                            self.config@.operator_address,
                        ),
                decreases raw.len() - i,
            {
                let tx_hash = get_str_or(&raw[i], "tx_hash", "");
                let output_index: u32 = match get_index(&raw[i]) {
                    Some(n) => n as u32,
                    None => 0,
                };
                r.push(
                    Utxo {
                        tx_hash: tx_hash.to_owned(),
                        output_index,
                        address: self.config.operator_address.clone(),
                        amount: read_amounts(&raw[i]),
                    },
                );
                i = i + 1;
            }
        }
        assert(tx_builder::utxos_view(r@) =~= match raw_utxos {
            Some(raw) => Seq::new(
                raw@.len(),
                |i: int| wallet_utxo(raw@[i]@, self.config_view().operator_address),
            ),
            None => Seq::empty(),
        });
        r
    }

    /// Puts together the context of a transaction.
    pub fn make_tx_context<'a>(
        &'a self,
        script_utxo: &'a ScriptUtxoInfo,
        wallet_utxos: &'a [Utxo],
    ) -> (r: TxContext<'a>)
        ensures
            r@ == self.context(script_utxo@, tx_builder::utxos_view(wallet_utxos@)),
    {
        TxContext {
            script_tx_hash: script_utxo.tx_hash.as_str(),
            script_tx_index: script_utxo.tx_index,
            script_lovelace: script_utxo.lovelace,
            script_cbtc: script_utxo.cbtc_amount,
            script_address: self.agent.config().script_address.as_str(),
            script_cbor: self.config.script_cbor.as_str(),
            operator_address: self.config.operator_address.as_str(),
            operator_pkh: self.config.operator_pkh.as_str(),
            operator_skey: self.config.skey_hex.as_str(),
            cbtc_policy: self.config.cbtc_policy.as_str(),
            cbtc_name: self.config.cbtc_name.as_str(),
            wallet_utxos,
            network: self.network.clone(),
            protocol_params: None,
        }
    }

    /// Builds and signs a deposit transaction. Gives the signed transaction as hex.
    pub fn deposit(&self, script_utxo: &ScriptUtxoInfo, wallet_utxos: &[Utxo], amount: i64) -> (r:
        Result<String, CardanoError>)
        requires
            amount > 0 ==> steps::fits(script_utxo.state.total_liquidity + amount) && steps::fits(
                script_utxo.cbtc_amount + amount,
            ),
            contract::outcome_can_build(
                self.context(script_utxo@, tx_builder::utxos_view(wallet_utxos@)),
                steps::deposit(script_utxo.state@, script_utxo.cbtc_amount, amount),
            ),
        ensures
            contract::outcome_yields(
                self.context(script_utxo@, tx_builder::utxos_view(wallet_utxos@)),
                steps::deposit(script_utxo.state@, script_utxo.cbtc_amount, amount),
                error::outcome(r),
            ),
    {
        let ctx = self.make_tx_context(script_utxo, wallet_utxos);
        build_deposit_tx(&ctx, &script_utxo.state, amount)
    }

    /// Builds and signs a withdrawal transaction. Gives the signed transaction as hex.
    pub fn withdraw(&self, script_utxo: &ScriptUtxoInfo, wallet_utxos: &[Utxo], amount: i64) -> (r:
        Result<String, CardanoError>)
        requires
            steps::withdraw_fits(script_utxo.state@, script_utxo.cbtc_amount, amount),
            contract::outcome_can_build(
                self.context(script_utxo@, tx_builder::utxos_view(wallet_utxos@)),
                steps::withdraw(script_utxo.state@, script_utxo.cbtc_amount, amount),
            ),
        ensures
            contract::outcome_yields(
                self.context(script_utxo@, tx_builder::utxos_view(wallet_utxos@)),
                steps::withdraw(script_utxo.state@, script_utxo.cbtc_amount, amount),
                error::outcome(r),
            ),
    {
        let ctx = self.make_tx_context(script_utxo, wallet_utxos);
        build_withdraw_tx(&ctx, &script_utxo.state, amount)
    }

    /// Builds and signs a transaction that creates an invoice. Gives the number of the
    /// invoice and the signed transaction as hex.
    pub fn create_invoice(
        &self,
        script_utxo: &ScriptUtxoInfo,
        wallet_utxos: &[Utxo],
        amount: i64,
        owner_pkh: &str,
        timestamp: i64,
        expires_at: i64,
    ) -> (r: Result<(i64, String), CardanoError>)
        requires
            steps::fits(script_utxo.state.last_invoice_id + 1),
            steps::create_invoice_fits(script_utxo.state@, amount),
            contract::outcome_can_build(
                self.context(script_utxo@, tx_builder::utxos_view(wallet_utxos@)),
                steps::create_invoice(
                    script_utxo.state@,
                    script_utxo.cbtc_amount,
                    amount,
                    owner_pkh@,
                    timestamp,
                    expires_at,
                ),
            ),
        ensures
            contract::outcome_yields(
                self.context(script_utxo@, tx_builder::utxos_view(wallet_utxos@)),
                steps::create_invoice(
                    script_utxo.state@,
                    script_utxo.cbtc_amount,
                    amount,
                    owner_pkh@,
                    timestamp,
                    expires_at,
                ),
                match r {
                    Ok((_, hex)) => Ok(hex@),
                    Err(e) => Err(e@),
                },
            ),
            r is Ok ==> r->Ok_0.0 == script_utxo.state.last_invoice_id + 1,
    {
        let new_invoice_id: i64 = script_utxo.state.last_invoice_id + 1;
        let ctx = self.make_tx_context(script_utxo, wallet_utxos);
        match build_create_invoice_tx(
            &ctx,
            &script_utxo.state,
            amount,
            owner_pkh,
            timestamp,
            expires_at,
        ) {
            Ok(tx) => Ok((new_invoice_id, tx)),
            Err(e) => Err(e),
        }
    }

    /// Builds and signs a transaction that fulfills an invoice. Gives the signed transaction
    /// as hex.
    pub fn fulfill_invoice(
        &self,
        script_utxo: &ScriptUtxoInfo,
        wallet_utxos: &[Utxo],
        invoice: &Invoice,
        owner_address: &str,
    ) -> (r: Result<String, CardanoError>)
        requires
            steps::fits(script_utxo.state.total_liquidity - invoice.amount),
            steps::fits(script_utxo.state.reserved - invoice.amount),
            steps::fits(script_utxo.cbtc_amount - invoice.amount),
            contract::can_build(
                self.context(script_utxo@, tx_builder::utxos_view(wallet_utxos@)),
                steps::fulfill_invoice(
                    script_utxo.state@,
                    script_utxo.cbtc_amount,
                    invoice@,
                    owner_address@,
                ),
            ),
        ensures
            contract::step_yields(
                self.context(script_utxo@, tx_builder::utxos_view(wallet_utxos@)),
                steps::fulfill_invoice(
                    script_utxo.state@,
                    script_utxo.cbtc_amount,
                    invoice@,
                    owner_address@,
                ),
                error::outcome(r),
            ),
    {
        let ctx = self.make_tx_context(script_utxo, wallet_utxos);
        build_fulfill_invoice_tx(&ctx, &script_utxo.state, invoice, owner_address)
    }

    /// Builds and signs a transaction that cancels an invoice. Gives the signed transaction
    /// as hex.
    pub fn cancel_invoice(
        &self,
        script_utxo: &ScriptUtxoInfo,
        wallet_utxos: &[Utxo],
        invoice_id: i64,
    ) -> (r: Result<String, CardanoError>)
        requires
            match steps::first_invoice(script_utxo.state@.invoices, invoice_id) {
                Some(invoice) => steps::fits(script_utxo.state.reserved - invoice.amount),
                None => true,
            },
            contract::outcome_can_build(
                self.context(script_utxo@, tx_builder::utxos_view(wallet_utxos@)),
                steps::cancel_invoice(script_utxo.state@, script_utxo.cbtc_amount, invoice_id),
            ),
        ensures
            contract::outcome_yields(
                self.context(script_utxo@, tx_builder::utxos_view(wallet_utxos@)),
                steps::cancel_invoice(script_utxo.state@, script_utxo.cbtc_amount, invoice_id),
                error::outcome(r),
            ),
    {
        let ctx = self.make_tx_context(script_utxo, wallet_utxos);
        build_cancel_invoice_tx(&ctx, &script_utxo.state, invoice_id)
    }

    /// Makes the request that submits a signed transaction.
    pub fn submit_tx(&self, tx_hex: &str) -> (r: Result<Submission, CardanoError>)
        ensures
            error::outcome(r) == submission(self.agent_view().blockfrost_url, tx_hex@),
    {
        let mut url = without_slashes(self.agent.config().blockfrost_url.as_str());
        url.append("/tx/submit");
        match decode_hex(tx_hex) {
            Ok(body) => Ok(Submission { url, body }),
            Err(e) => Err(CardanoError::parse_with("invalid tx hex: ", e.as_str())),
        }
    }
}

/// Every transaction that was built can be submitted.
pub proof fn lemma_submittable(
    ctx: ContextView,
    step: StepView,
    base: Seq<char>,
    tx_hex: Seq<char>,
)
    requires
        contract::step_yields(ctx, step, Ok(tx_hex)),
    ensures
        submission(base, tx_hex) == Ok::<SubmissionView, ErrorView>(
            SubmissionView { url: submit_url(base), body: base16::hex_bytes(tx_hex) },
        ),
{
}

} // verus!

//! What callers can rely on when they ask the API and build transactions from its answers:
//! laws of the executable functions themselves, over their arguments and their results.

use crate::agent::{CardanoAgent, CardanoConfig, QueryStep};
use crate::contract::TxContext;
use crate::error::{CardanoError, ErrorView};
use crate::json::{Json, JsonView};
use crate::operator::{OperatorAgent, OperatorConfig, ScriptUtxo, ScriptUtxoInfo, Submission};
use crate::steps::ContractStep;
use crate::tx_builder::{ProtocolParams, Utxo};
use crate::types::{Invoice, State};
use crate::{agent, answers, base16, contract, datum, error, json, operations, operator};
use crate::{parameters, steps, transactions, tx_builder, types};
use vstd::prelude::*;

verus! {

/// A configuration comes from the environment: the script address has to be there, and the
/// other two have defaults.
pub proof fn law_config_from_env(
    script_address: Option<String>,
    base_url: Option<String>,
    project_id: Option<String>,
    r: Result<CardanoConfig, CardanoError>,
)
    requires
        call_ensures(CardanoConfig::from_env, (script_address, base_url, project_id), r),
    ensures
        match r {
            Ok(c) => {
                &&& script_address is Some
                &&& c.script_address@ == script_address->Some_0@
                &&& base_url is Some ==> c.blockfrost_url@ == base_url->Some_0@
                &&& base_url is None ==> c.blockfrost_url@ == "http://localhost:8080/api/v1/"@
                &&& project_id is Some ==> c.blockfrost_key@ == project_id->Some_0@
                &&& project_id is None ==> c.blockfrost_key@ == "local"@
            },
            Err(e) => {
                &&& script_address is None
                &&& e@ == ErrorView::NotFound("SCRIPT_ADDRESS env var not set"@)
            },
        },
{
}

/// The addresses that an agent asks are its base without the slashes at the end, and behind it
/// the path.
pub proof fn law_addresses(
    config: CardanoConfig,
    a: CardanoAgent,
    name: &str,
    k: int,
    utxos: String,
    named: String,
    latest: String,
)
    requires
        call_ensures(CardanoAgent::new, (config,), a),
        call_ensures(CardanoAgent::utxos_url, (&a, name), utxos),
        call_ensures(CardanoAgent::datum_url, (&a, name), named),
        call_ensures(CardanoAgent::parameters_url, (&a,), latest),
        0 <= k <= config.blockfrost_url@.len(),
        forall|i: int|
            k <= i < config.blockfrost_url@.len() ==> #[trigger] config.blockfrost_url@[i] == '/',
        k > 0 ==> config.blockfrost_url@[k - 1] != '/',
    ensures
        utxos@ == config.blockfrost_url@.take(k) + "/addresses/"@ + name@ + "/utxos"@,
        named@ == config.blockfrost_url@.take(k) + "/scripts/datum/"@ + name@,
        latest@ == config.blockfrost_url@.take(k) + "/epochs/latest/parameters"@,
{
    answers::lemma_urls(config.blockfrost_url@, k, name@);
}

/// The first output with an inline datum decides a query for the pool state.
pub proof fn law_inline_datum_decides(a: CardanoAgent, utxos: Vec<Json>, k: int, q: QueryStep)
    requires
        call_ensures(CardanoAgent::query_state, (&a, &utxos), q),
        0 <= k < utxos@.len(),
        forall|i: int| 0 <= i < k ==> !answers::has_inline_datum((#[trigger] utxos@[i])@),
        answers::has_inline_datum(utxos@[k]@),
    ensures
        q is Done,
        error::outcome(q->Done_0) == match utxos@[k]@->Object_0["inline_datum"@] {
            JsonView::Str(hex) => match datum::hex_to_json(hex) {
                Ok(j) => types::state_of(j),
                Err(e) => Err(e),
            },
            d => types::state_of(d),
        },
{
    json::lemma_array_view(utxos@);
    let views = json::array_view(utxos@);
    assert forall|i: int| 0 <= i < k implies !answers::has_inline_datum(#[trigger] views[i]) by {
        assert(views[i] == utxos@[i]@);
    }
    answers::lemma_inline_datum_decides(views, k);
}

/// Without an inline datum the first output that names a datum by its hash is asked for, and
/// without such an output the query ends.
pub proof fn law_named_datum_is_asked_for(a: CardanoAgent, utxos: Vec<Json>, k: int, q: QueryStep)
    requires
        call_ensures(CardanoAgent::query_state, (&a, &utxos), q),
        0 <= k <= utxos@.len(),
        forall|i: int|
            0 <= i < utxos@.len() ==> !answers::has_inline_datum((#[trigger] utxos@[i])@),
        forall|i: int|
            0 <= i < k ==> !answers::gives_text((#[trigger] utxos@[i])@, "data_hash"@),
        k < utxos@.len() ==> answers::gives_text(utxos@[k]@, "data_hash"@),
    ensures
        match q {
            QueryStep::FetchDatum { index, data_hash } => {
                &&& index == k
                &&& k < utxos@.len()
                &&& utxos@[k]@->Object_0["data_hash"@] == JsonView::Str(data_hash@)
            },
            QueryStep::Done(Err(e)) => {
                &&& k == utxos@.len()
                &&& e@ == ErrorView::NotFound(
                    if k == 0 {
                        "no UTxOs found at script address"@
                    } else {
                        "no UTxO with datum found at script address"@
                    },
                )
            },
            QueryStep::Done(Ok(_)) => false,
        },
{
    json::lemma_array_view(utxos@);
    let views = json::array_view(utxos@);
    assert forall|i: int| 0 <= i < views.len() implies !answers::has_inline_datum(
        #[trigger] views[i],
    ) by {
        assert(views[i] == utxos@[i]@);
    }
    assert forall|i: int| 0 <= i < k implies !answers::gives_text(
        #[trigger] views[i],
        "data_hash"@,
    ) by {
        assert(views[i] == utxos@[i]@);
    }
    answers::lemma_named_datum_is_asked_for(views, k);
}

/// An answer with a value decides a query. After any other one, the next output that names a
/// datum is asked for.
pub proof fn law_answer_decides(
    a: CardanoAgent,
    utxos: Vec<Json>,
    index: usize,
    answer: Option<&Json>,
    k: int,
    q: QueryStep,
)
    requires
        call_ensures(CardanoAgent::datum_answer, (&a, &utxos, index, answer), q),
        index < k <= utxos@.len(),
        forall|i: int|
            index < i < k ==> !answers::gives_text((#[trigger] utxos@[i])@, "data_hash"@),
        k < utxos@.len() ==> answers::gives_text(utxos@[k]@, "data_hash"@),
    ensures
        if answer is Some && answers::given(answer->Some_0@, "json_value"@) is Some {
            &&& q is Done
            &&& error::outcome(q->Done_0) == types::state_of(
                answer->Some_0@->Object_0["json_value"@],
            )
        } else if k < utxos@.len() {
            &&& q is FetchDatum
            &&& q->index == k
            &&& utxos@[k]@->Object_0["data_hash"@] == JsonView::Str(q->data_hash@)
        } else {
            &&& q is Done
            &&& error::outcome(q->Done_0) == Err::<types::StateView, ErrorView>(
                ErrorView::NotFound("no UTxO with datum found at script address"@),
            )
        },
{
    json::lemma_array_view(utxos@);
    let views = json::array_view(utxos@);
    assert forall|i: int| index < i < k implies !answers::gives_text(
        #[trigger] views[i],
        "data_hash"@,
    ) by {
        assert(views[i] == utxos@[i]@);
    }
    let given = match answer {
        Some(j) => Some(j@),
        None => None,
    };
    answers::lemma_answer_decides(views, index as int, given, k);
}

/// The collateral is the first output of the wallet that holds nothing but lovelace, five ADA
/// of it in one amount.
pub proof fn law_collateral(wallet: &[Utxo], r: Option<&Utxo>)
    requires
        call_ensures(contract::find_collateral, (wallet,), r),
    ensures
        match r {
            Some(u) => exists|i: int|
                {
                    &&& 0 <= i < wallet@.len()
                    &&& (#[trigger] wallet@[i])@ == u@
                    &&& transactions::is_five_ada(u@)
                    &&& forall|j: int|
                        0 <= j < i ==> !transactions::is_five_ada((#[trigger] wallet@[j])@)
                },
            None => forall|j: int|
                0 <= j < wallet@.len() ==> !transactions::is_five_ada((#[trigger] wallet@[j])@),
        },
{
    let views = tx_builder::utxos_view(wallet@);
    transactions::lemma_collateral_is_five_ada(views);
    match r {
        Some(u) => {
            let i = choose|i: int|
                {
                    &&& 0 <= i < views.len()
                    &&& #[trigger] views[i] == u@
                    &&& transactions::is_five_ada(u@)
                    &&& forall|j: int|
                        0 <= j < i ==> !transactions::is_five_ada(#[trigger] views[j])
                };
            assert(wallet@[i]@ == views[i]);
            assert forall|j: int| 0 <= j < i implies !transactions::is_five_ada(
                (#[trigger] wallet@[j])@,
            ) by {
                assert(views[j] == wallet@[j]@);
            }
        },
        None => {
            assert forall|j: int| 0 <= j < wallet@.len() implies !transactions::is_five_ada(
                (#[trigger] wallet@[j])@,
            ) by {
                assert(views[j] == wallet@[j]@);
            }
        },
    }
}

/// The amounts of an output are the last ones that it lists of lovelace and of cBTC, and zero
/// where it lists none.
pub proof fn law_amounts(
    utxo: Json,
    config: OperatorConfig,
    items: Seq<JsonView>,
    k: int,
    m: int,
    r: (u64, i64),
)
    requires
        call_ensures(operator::parse_utxo_amounts, (&utxo, &config), r),
        config.cbtc_policy@ + config.cbtc_name@ != "lovelace"@,
        answers::given(utxo@, "amount"@) == Some(JsonView::Array(items)),
        -1 <= k < items.len(),
        k >= 0 ==> answers::text_or(items[k], "unit"@, Seq::empty()) == "lovelace"@,
        forall|i: int|
            k < i < items.len() ==> answers::text_or(#[trigger] items[i], "unit"@, Seq::empty())
                != "lovelace"@,
        -1 <= m < items.len(),
        m >= 0 ==> answers::text_or(items[m], "unit"@, Seq::empty()) == config.cbtc_policy@
            + config.cbtc_name@,
        forall|i: int|
            m < i < items.len() ==> answers::text_or(#[trigger] items[i], "unit"@, Seq::empty())
                != config.cbtc_policy@ + config.cbtc_name@,
    ensures
        r.0 == if k >= 0 {
            answers::listed_u64(items[k])
        } else {
            0
        },
        r.1 == if m >= 0 {
            answers::listed_i64(items[m])
        } else {
            0
        },
{
    let unit = config.cbtc_policy@ + config.cbtc_name@;
    answers::lemma_amounts_are_listed(utxo@, unit);
    answers::lemma_lovelace_listed(items, unit, k);
    answers::lemma_cbtc_listed(items, unit, m);
}

/// The script output is the first one with an inline datum, with the hash, the index and the
/// amounts that it lists.
pub proof fn law_script_utxo(
    o: OperatorAgent,
    config: OperatorConfig,
    utxos: Vec<Json>,
    k: int,
    amounts: (u64, i64),
    r: Result<ScriptUtxo, CardanoError>,
)
    requires
        call_ensures(OperatorAgent::config, (&o,), &config),
        call_ensures(OperatorAgent::query_script_utxo, (&o, &utxos), r),
        0 <= k <= utxos@.len(),
        forall|i: int| 0 <= i < k ==> !answers::has_inline_datum((#[trigger] utxos@[i])@),
        k < utxos@.len() ==> answers::has_inline_datum(utxos@[k]@),
        k < utxos@.len() ==> call_ensures(
            operator::parse_utxo_amounts,
            (&utxos@[k], &config),
            amounts,
        ),
    ensures
        match r {
            Ok(u) => {
                &&& k < utxos@.len()
                &&& answers::given(utxos@[k]@, "tx_hash"@) == Some(JsonView::Str(u.tx_hash@))
                &&& answers::listed_index(utxos@[k]@) is Some
                &&& u.tx_index == answers::listed_index(utxos@[k]@)->Some_0 as u32
                &&& u.lovelace == amounts.0
                &&& u.cbtc_amount == amounts.1
            },
            Err(e) => if k == utxos@.len() {
                e@ == ErrorView::NotFound("no script UTxO with inline datum found"@)
            } else if !answers::gives_text(utxos@[k]@, "tx_hash"@) {
                e@ == ErrorView::Parse("missing tx_hash"@)
            } else {
                &&& answers::listed_index(utxos@[k]@) is None
                &&& e@ == ErrorView::Parse("missing output_index"@)
            },
        },
{
    json::lemma_array_view(utxos@);
    let views = json::array_view(utxos@);
    assert forall|i: int| 0 <= i < k implies !answers::has_inline_datum(#[trigger] views[i]) by {
        assert(views[i] == utxos@[i]@);
    }
    answers::lemma_script_utxo_found(views, config.cbtc_policy@ + config.cbtc_name@, k);
}

/// The outputs of the wallet are those that the API lists, one for one, at the address of the
/// operator. Without an answer there are none.
pub proof fn law_wallet_utxos(
    o: OperatorAgent,
    config: OperatorConfig,
    raw: Option<&Vec<Json>>,
    r: Vec<Utxo>,
)
    requires
        call_ensures(OperatorAgent::config, (&o,), &config),
        call_ensures(OperatorAgent::query_wallet_utxos, (&o, raw), r),
    ensures
        raw is None ==> r@.len() == 0,
        raw is Some ==> r@.len() == raw->Some_0@.len(),
        raw is Some ==> forall|i: int|
            0 <= i < r@.len() ==> {
                let j = raw->Some_0@[i]@;
                &&& (#[trigger] r@[i]).tx_hash@ == answers::text_or(j, "tx_hash"@, Seq::empty())
                &&& r@[i].output_index == if answers::listed_index(j) is Some {
                    answers::listed_index(j)->Some_0 as u32
                } else {
                    0
                }
                &&& r@[i].address@ == config.operator_address@
                &&& match answers::given(j, "amount"@) {
                    Some(JsonView::Array(items)) => {
                        &&& r@[i].amount@.len() == items.len()
                        &&& forall|k: int|
                            0 <= k < items.len() ==> {
                                &&& (#[trigger] r@[i].amount@[k]).unit@ == answers::text_or(
                                    items[k],
                                    "unit"@,
                                    "lovelace"@,
                                )
                                &&& r@[i].amount@[k].quantity@ == answers::text_or(
                                    items[k],
                                    "quantity"@,
                                    "0"@,
                                )
                            }
                    },
                    _ => r@[i].amount@.len() == 0,
                }
            },
{
    let views = tx_builder::utxos_view(r@);
    assert(views.len() == r@.len());
    if let Some(list) = raw {
        assert forall|i: int| 0 <= i < r@.len() implies {
            let j = list@[i]@;
            &&& (#[trigger] r@[i]).tx_hash@ == answers::text_or(j, "tx_hash"@, Seq::empty())
            &&& r@[i].output_index == if answers::listed_index(j) is Some {
                answers::listed_index(j)->Some_0 as u32
            } else {
                0
            }
            &&& r@[i].address@ == config.operator_address@
            &&& match answers::given(j, "amount"@) {
                Some(JsonView::Array(items)) => {
                    &&& r@[i].amount@.len() == items.len()
                    &&& forall|k: int|
                        0 <= k < items.len() ==> {
                            &&& (#[trigger] r@[i].amount@[k]).unit@ == answers::text_or(
                                items[k],
                                "unit"@,
                                "lovelace"@,
                            )
                            &&& r@[i].amount@[k].quantity@ == answers::text_or(
                                items[k],
                                "quantity"@,
                                "0"@,
                            )
                        }
                },
                _ => r@[i].amount@.len() == 0,
            }
        } by {
            let j = list@[i]@;
            let u = operator::wallet_utxo(j, config.operator_address@);
            answers::lemma_wallet_utxo_read(j, config.operator_address@);
            assert(views[i] == r@[i]@);
            assert(r@[i]@ == u);
            assert(u.amount.len() == r@[i].amount@.len());
            if let Some(JsonView::Array(items)) = answers::given(j, "amount"@) {
                assert forall|k: int| 0 <= k < items.len() implies {
                    &&& (#[trigger] r@[i].amount@[k]).unit@ == answers::text_or(
                        items[k],
                        "unit"@,
                        "lovelace"@,
                    )
                    &&& r@[i].amount@[k].quantity@ == answers::text_or(
                        items[k],
                        "quantity"@,
                        "0"@,
                    )
                } by {
                    assert(u.amount[k] == r@[i].amount@[k]@);
                }
            }
        }
    }
}

/// The context in which an operator builds transactions takes the script output from what was
/// found, the script address from the agent, and all else from the operator.
pub proof fn law_operator_context(
    o: OperatorAgent,
    a: CardanoAgent,
    config: OperatorConfig,
    cardano: CardanoConfig,
    info: ScriptUtxoInfo,
    wallet: &[Utxo],
    ctx: TxContext,
)
    requires
        call_ensures(OperatorAgent::agent, (&o,), &a),
        call_ensures(CardanoAgent::config, (&a,), &cardano),
        call_ensures(OperatorAgent::config, (&o,), &config),
        call_ensures(OperatorAgent::make_tx_context, (&o, &info, wallet), ctx),
    ensures
        ctx.script_tx_hash@ == info.tx_hash@,
        ctx.script_tx_index == info.tx_index,
        ctx.script_lovelace == info.lovelace,
        ctx.script_cbtc == info.cbtc_amount,
        ctx.script_address@ == cardano.script_address@,
        ctx.script_cbor@ == config.script_cbor@,
        ctx.operator_address@ == config.operator_address@,
        ctx.operator_pkh@ == config.operator_pkh@,
        ctx.operator_skey@ == config.skey_hex@,
        ctx.cbtc_policy@ == config.cbtc_policy@,
        ctx.cbtc_name@ == config.cbtc_name@,
        ctx.wallet_utxos@.len() == wallet@.len(),
        forall|i: int|
            0 <= i < wallet@.len() ==> (#[trigger] ctx.wallet_utxos@[i])@ == wallet@[i]@,
        ctx.network@ == o.network_view(),
        ctx.protocol_params is None,
{
    answers::lemma_context_parts(
        cardano@,
        config@,
        o.network_view(),
        info@,
        tx_builder::utxos_view(wallet@),
    );
    assert(ctx@.wallet_utxos.len() == ctx.wallet_utxos@.len());
    assert forall|i: int| 0 <= i < wallet@.len() implies (#[trigger] ctx.wallet_utxos@[i])@
        == wallet@[i]@ by {
        assert(ctx@.wallet_utxos[i] == ctx.wallet_utxos@[i]@);
        assert(tx_builder::utxos_view(wallet@)[i] == wallet@[i]@);
    }
}

/// A deposit and a withdrawal of an operator are the transactions of their steps, from the
/// pool state and the cBTC of the script output that was found.
pub proof fn law_operator_moves(
    o: OperatorAgent,
    info: ScriptUtxoInfo,
    wallet: &[Utxo],
    ctx: TxContext,
    amount: i64,
    into: Result<ContractStep, CardanoError>,
    out: Result<ContractStep, CardanoError>,
    deposited: Result<String, CardanoError>,
    withdrawn: Result<String, CardanoError>,
)
    requires
        call_ensures(OperatorAgent::make_tx_context, (&o, &info, wallet), ctx),
        ctx.cbtc_policy@ + ctx.cbtc_name@ != "lovelace"@,
        call_ensures(steps::deposit_step, (&info.state, info.cbtc_amount, amount), into),
        call_ensures(steps::withdraw_step, (&info.state, info.cbtc_amount, amount), out),
        call_ensures(OperatorAgent::deposit, (&o, &info, wallet, amount), deposited),
        call_ensures(OperatorAgent::withdraw, (&o, &info, wallet, amount), withdrawn),
    ensures
        match (into, deposited) {
            (Ok(t), Ok(hex)) => transactions::is_signed(ctx@, t@, hex@),
            (Ok(t), Err(e)) => operations::is_late_refusal(ctx, e@),
            (Err(d), Err(e)) => e@ == d@,
            (Err(d), Ok(hex)) => false,
        },
        match (out, withdrawn) {
            (Ok(t), Ok(hex)) => transactions::is_signed(ctx@, t@, hex@),
            (Ok(t), Err(e)) => operations::is_late_refusal(ctx, e@),
            (Err(d), Err(e)) => e@ == d@,
            (Err(d), Ok(hex)) => false,
        },
{
    if let Ok(t) = into {
        operations::lemma_yields(ctx, t@, error::outcome(deposited));
    }
    if let Ok(t) = out {
        operations::lemma_yields(ctx, t@, error::outcome(withdrawn));
    }
}

/// What an operator does with invoices are the transactions of the steps, from the pool state
/// and the cBTC of the script output that was found. A new invoice comes with its number.
pub proof fn law_operator_invoices(
    o: OperatorAgent,
    info: ScriptUtxoInfo,
    wallet: &[Utxo],
    ctx: TxContext,
    amount: i64,
    owner: &str,
    timestamp: i64,
    expires_at: i64,
    made: Result<ContractStep, CardanoError>,
    created: Result<(i64, String), CardanoError>,
    invoice: Invoice,
    paid: ContractStep,
    fulfilled: Result<String, CardanoError>,
    id: i64,
    dropped: Result<ContractStep, CardanoError>,
    cancelled: Result<String, CardanoError>,
)
    requires
        call_ensures(OperatorAgent::make_tx_context, (&o, &info, wallet), ctx),
        ctx.cbtc_policy@ + ctx.cbtc_name@ != "lovelace"@,
        info.state.last_invoice_id < i64::MAX,
        call_ensures(
            steps::create_invoice_step,
            (&info.state, info.cbtc_amount, amount, owner, timestamp, expires_at),
            made,
        ),
        call_ensures(
            OperatorAgent::create_invoice,
            (&o, &info, wallet, amount, owner, timestamp, expires_at),
            created,
        ),
        call_ensures(
            steps::fulfill_invoice_step,
            (&info.state, info.cbtc_amount, &invoice, owner),
            paid,
        ),
        call_ensures(
            OperatorAgent::fulfill_invoice,
            (&o, &info, wallet, &invoice, owner),
            fulfilled,
        ),
        call_ensures(steps::cancel_invoice_step, (&info.state, info.cbtc_amount, id), dropped),
        call_ensures(OperatorAgent::cancel_invoice, (&o, &info, wallet, id), cancelled),
    ensures
        match (made, created) {
            (Ok(t), Ok((number, hex))) => {
                &&& transactions::is_signed(ctx@, t@, hex@)
                &&& number == info.state.last_invoice_id + 1
                &&& number == t.state.last_invoice_id
            },
            (Ok(t), Err(e)) => operations::is_late_refusal(ctx, e@),
            (Err(d), Err(e)) => e@ == d@,
            (Err(d), Ok(_)) => false,
        },
        match fulfilled {
            Ok(hex) => transactions::is_signed(ctx@, paid@, hex@),
            Err(e) => operations::is_late_refusal(ctx, e@),
        },
        match (dropped, cancelled) {
            (Ok(t), Ok(hex)) => transactions::is_signed(ctx@, t@, hex@),
            (Ok(t), Err(e)) => operations::is_late_refusal(ctx, e@),
            (Err(d), Err(e)) => e@ == d@,
            (Err(d), Ok(hex)) => false,
        },
{
    if let Ok(t) = made {
        let outcome = match created {
            Ok((_, hex)) => Ok(hex@),
            Err(e) => Err(e@),
        };
        operations::lemma_yields(ctx, t@, outcome);
    }
    operations::lemma_yields(ctx, paid@, error::outcome(fulfilled));
    if let Ok(t) = dropped {
        operations::lemma_yields(ctx, t@, error::outcome(cancelled));
    }
}

/// A signed transaction is submitted as its bytes, and nothing but hexadecimal text is.
pub proof fn law_submission(
    o: OperatorAgent,
    tx_hex: &str,
    k: int,
    r: Result<Submission, CardanoError>,
)
    requires
        call_ensures(OperatorAgent::submit_tx, (&o, tx_hex), r),
        0 <= k <= o.agent_view().blockfrost_url.len(),
        forall|i: int|
            k <= i < o.agent_view().blockfrost_url.len()
                ==> #[trigger] o.agent_view().blockfrost_url[i] == '/',
        k > 0 ==> o.agent_view().blockfrost_url[k - 1] != '/',
    ensures
        match r {
            Ok(s) => {
                &&& base16::is_hex(tx_hex@)
                &&& s.body@ == base16::hex_bytes(tx_hex@)
                &&& s.url@ == o.agent_view().blockfrost_url.take(k) + "/tx/submit"@
            },
            Err(e) => {
                &&& !base16::is_hex(tx_hex@)
                &&& e@ == ErrorView::Parse("invalid tx hex: "@ + base16::hex_error(tx_hex@))
            },
        },
{
    answers::lemma_urls(o.agent_view().blockfrost_url, k, tx_hex@);
    answers::lemma_submission_parts(o.agent_view().blockfrost_url, tx_hex@);
}

/// The protocol parameters and the cost models are read from the answer. Without an answer
/// both are refused, and so are cost models that the answer does not hold.
pub proof fn law_parameters(
    a: CardanoAgent,
    answer: Option<&Json>,
    params: Result<ProtocolParams, CardanoError>,
    models: Result<Vec<Vec<i64>>, CardanoError>,
)
    requires
        call_ensures(CardanoAgent::fetch_protocol_params, (&a, answer), params),
        call_ensures(CardanoAgent::fetch_cost_models, (&a, answer), models),
    ensures
        answer is None ==> params is Err && params->Err_0@ == ErrorView::NotFound(
            "failed to fetch epoch parameters"@,
        ),
        answer is None ==> models is Err && models->Err_0@ == ErrorView::NotFound(
            "failed to fetch epoch parameters"@,
        ),
        answer is Some ==> params is Ok && params->Ok_0@ == parameters::protocol_of(
            answer->Some_0@,
        ),
        answer is Some && answers::given(answer->Some_0@, "cost_models"@) is None ==> models is Err
            && models->Err_0@ == ErrorView::NotFound("no cost_models in epoch parameters"@),
        answer is Some && answers::given(answer->Some_0@, "cost_models"@) is Some ==> {
            let m = answer->Some_0@->Object_0["cost_models"@];
            let v1 = answers::count_model(m, "PlutusV1"@);
            let v2 = answers::count_model(m, "PlutusV2"@);
            let v3 = answers::count_model(m, "PlutusV3"@);
            &&& models is Ok
            &&& models->Ok_0@.len() == v1 + v2 + v3
            &&& v1 == 1 ==> answers::lists_costs(
                m->Object_0["PlutusV1"@]->Object_0,
                models->Ok_0@[0]@,
            )
            &&& v2 == 1 ==> answers::lists_costs(
                m->Object_0["PlutusV2"@]->Object_0,
                models->Ok_0@[v1]@,
            )
            &&& v3 == 1 ==> answers::lists_costs(
                m->Object_0["PlutusV3"@]->Object_0,
                models->Ok_0@[v1 + v2]@,
            )
        },
{
    if answer is Some && answers::given(answer->Some_0@, "cost_models"@) is Some {
        let m = answer->Some_0@->Object_0["cost_models"@];
        answers::lemma_cost_models_in_order(m, parameters::lists_view(models->Ok_0@));
    }
}

/// An agent keeps its configuration, and an operator its agent, its configuration and the main
/// network.
pub proof fn law_agents_keep_their_parts(
    config: CardanoConfig,
    a: CardanoAgent,
    kept: &CardanoConfig,
    operator_config: OperatorConfig,
    o: OperatorAgent,
    inner: &CardanoAgent,
    operator_kept: &OperatorConfig,
)
    requires
        call_ensures(CardanoAgent::new, (config,), a),
        call_ensures(CardanoAgent::config, (&a,), kept),
        call_ensures(OperatorAgent::new, (a, operator_config), o),
        call_ensures(OperatorAgent::agent, (&o,), inner),
        call_ensures(OperatorAgent::config, (&o,), operator_kept),
    ensures
        kept.blockfrost_url@ == config.blockfrost_url@,
        kept.blockfrost_key@ == config.blockfrost_key@,
        kept.script_address@ == config.script_address@,
        inner.config_view() == config@,
        o.agent_view() == config@,
        operator_kept.skey_hex@ == operator_config.skey_hex@,
        operator_kept.operator_address@ == operator_config.operator_address@,
        operator_kept.operator_pkh@ == operator_config.operator_pkh@,
        operator_kept.script_cbor@ == operator_config.script_cbor@,
        operator_kept.cbtc_policy@ == operator_config.cbtc_policy@,
        operator_kept.cbtc_name@ == operator_config.cbtc_name@,
        o.network_view() is Mainnet,
{
}

/// The script output keeps its place and its amounts when the pool state is put beside it.
pub proof fn law_state_beside_script_utxo(u: ScriptUtxo, s: State, r: ScriptUtxoInfo)
    requires
        call_ensures(ScriptUtxo::with_state, (u, s), r),
    ensures
        r.tx_hash@ == u.tx_hash@,
        r.tx_index == u.tx_index,
        r.lovelace == u.lovelace,
        r.cbtc_amount == u.cbtc_amount,
        r.state@ == s@,
{
}

/// What is said where the API refuses a request is its status and its words.
pub proof fn law_refusals_are_told(
    status: &str,
    body: &str,
    listing: CardanoError,
    submitting: CardanoError,
)
    requires
        call_ensures(agent::api_error, (status, body), listing),
        call_ensures(operator::submit_error, (status, body), submitting),
    ensures
        listing is NotFound,
        listing->NotFound_0@ == "Blockfrost API error "@ + status@ + ": "@ + body@,
        submitting is Parse,
        submitting->Parse_0@ == "tx submit failed "@ + status@ + ": "@ + body@,
{
}

/// What the SDK answered is passed on: what it signed as it is, and what it refused in its
/// words.
pub proof fn law_sdk_answers_are_told(
    built: Result<(), String>,
    b: Result<(), CardanoError>,
    signed: Result<String, String>,
    s: Result<String, CardanoError>,
)
    requires
        call_ensures(contract::build_outcome, (built,), b),
        call_ensures(contract::signing_outcome, (signed,), s),
    ensures
        match (built, b) {
            (Ok(_), Ok(_)) => true,
            (Err(words), Err(CardanoError::Parse(m))) => m@ == "tx build failed: "@ + words@,
            _ => false,
        },
        match (signed, s) {
            (Ok(hex), Ok(r)) => r@ == hex@,
            (Err(words), Err(CardanoError::Parse(m))) => m@ == "tx signing failed: "@ + words@,
            _ => false,
        },
{
}

/// Cost models make the network a custom one with these models, and leave the rest as it is.
pub proof fn law_cost_models_are_taken_over(o: &mut OperatorAgent, models: Vec<Vec<i64>>)
    requires
        call_ensures(OperatorAgent::init, (o, models), ()),
    ensures
        final(o).network_view() is Custom,
        final(o).network_view()->Custom_0.len() == models@.len(),
        forall|i: int|
            0 <= i < models@.len() ==> #[trigger] final(o).network_view()->Custom_0[i]
                == models@[i]@,
        final(o).agent_view() == old(o).agent_view(),
        final(o).config_view() == old(o).config_view(),
{
}

} // verus!

//! What is read of the answers of the API, key by key.

use crate::agent::{ConfigView, QueryView};
use crate::error::ErrorView;
use crate::json::{JsonView, NumberView};
use crate::operator::{InfoView, OperatorView};
use crate::tx_builder::{NetworkView, UtxoView};
use crate::{agent, base16, datum, json, operator, parameters, text, types};
use vstd::prelude::*;

verus! {

/// The value that a document holds under a key, where it holds one.
pub open spec fn given(j: JsonView, key: Seq<char>) -> Option<JsonView> {
    if j is Object && j->Object_0.contains_key(key) {
        Some(j->Object_0[key])
    } else {
        None
    }
}

/// Whether a document holds a string under a key.
pub open spec fn gives_text(j: JsonView, key: Seq<char>) -> bool {
    given(j, key) is Some && given(j, key)->Some_0 is Str
}

/// The string that a document holds under a key, or a default.
pub open spec fn text_or(j: JsonView, key: Seq<char>, default: Seq<char>) -> Seq<char> {
    if gives_text(j, key) {
        given(j, key)->Some_0->Str_0
    } else {
        default
    }
}

/// Addresses of the API: the base without the slashes at its end, and behind it the path.
pub proof fn lemma_urls(base: Seq<char>, k: int, name: Seq<char>)
    requires
        0 <= k <= base.len(),
        forall|i: int| k <= i < base.len() ==> #[trigger] base[i] == '/',
        k > 0 ==> base[k - 1] != '/',
    ensures
        agent::utxos_url(base, name) == base.take(k) + "/addresses/"@ + name + "/utxos"@,
        agent::datum_url(base, name) == base.take(k) + "/scripts/datum/"@ + name,
        agent::parameters_url(base) == base.take(k) + "/epochs/latest/parameters"@,
        operator::submit_url(base) == base.take(k) + "/tx/submit"@,
{
    lemma_trimmed_at(base, k);
}

/// Where trimming ends.
proof fn lemma_trimmed_at(s: Seq<char>, k: int)
    requires
        0 <= k <= s.len(),
        forall|i: int| k <= i < s.len() ==> #[trigger] s[i] == '/',
        k > 0 ==> s[k - 1] != '/',
    ensures
        text::trim_slashes(s) == s.take(k),
    decreases s.len(),
{
    if k < s.len() {
        assert(s.last() == s[s.len() - 1]);
        lemma_trimmed_at(s.drop_last(), k);
        assert(s.drop_last().take(k) =~= s.take(k));
    } else {
        assert(s.take(k) =~= s);
        if s.len() > 0 {
            assert(s.last() == s[k - 1]);
        }
    }
}

/// Whether an unspent output has an inline datum.
pub open spec fn has_inline_datum(utxo: JsonView) -> bool {
    given(utxo, "inline_datum"@) is Some && given(utxo, "inline_datum"@)->Some_0 !is Null
}

/// The first inline datum decides a query, whatever the other outputs hold: a string is CBOR
/// hex, and anything else Plutus JSON.
pub proof fn lemma_inline_datum_decides(utxos: Seq<JsonView>, k: int)
    requires
        0 <= k < utxos.len(),
        forall|i: int| 0 <= i < k ==> !has_inline_datum(#[trigger] utxos[i]),
        has_inline_datum(utxos[k]),
    ensures
        agent::first_step(utxos) is Done,
        agent::first_step(utxos)->Done_0 == match utxos[k]->Object_0["inline_datum"@] {
            JsonView::Str(hex) => match datum::hex_to_json(hex) {
                Ok(j) => types::state_of(j),
                Err(e) => Err(e),
            },
            d => types::state_of(d),
        },
{
    lemma_first_inline(utxos, k);
}

/// The first inline datum among some outputs.
proof fn lemma_first_inline(utxos: Seq<JsonView>, k: int)
    requires
        0 <= k <= utxos.len(),
        forall|i: int| 0 <= i < k ==> !has_inline_datum(#[trigger] utxos[i]),
        k < utxos.len() ==> has_inline_datum(utxos[k]),
    ensures
        agent::first_inline_datum(utxos) == if k < utxos.len() {
            given(utxos[k], "inline_datum"@)
        } else {
            None
        },
    decreases utxos.len(),
{
    if k > 0 {
        let rest = utxos.skip(1);
        assert forall|i: int| 0 <= i < k - 1 implies !has_inline_datum(#[trigger] rest[i]) by {
            assert(rest[i] == utxos[i + 1]);
        }
        lemma_first_inline(rest, k - 1);
        assert(!has_inline_datum(utxos[0]));
        if k < utxos.len() {
            assert(rest[k - 1] == utxos[k]);
        }
    }
}

/// Without an inline datum, the first output that names a datum by its hash is asked for.
/// Without any, and without outputs, the query ends.
pub proof fn lemma_named_datum_is_asked_for(utxos: Seq<JsonView>, k: int)
    requires
        0 <= k <= utxos.len(),
        forall|i: int| 0 <= i < utxos.len() ==> !has_inline_datum(#[trigger] utxos[i]),
        forall|i: int| 0 <= i < k ==> !gives_text(#[trigger] utxos[i], "data_hash"@),
        k < utxos.len() ==> gives_text(utxos[k], "data_hash"@),
    ensures
        utxos.len() == 0 ==> agent::first_step(utxos) == QueryView::Done(
            Err(ErrorView::NotFound("no UTxOs found at script address"@)),
        ),
        0 < utxos.len() == k ==> agent::first_step(utxos) == QueryView::Done(
            Err(ErrorView::NotFound("no UTxO with datum found at script address"@)),
        ),
        k < utxos.len() ==> {
            &&& agent::first_step(utxos) is FetchDatum
            &&& agent::first_step(utxos)->index == k
            &&& JsonView::Str(agent::first_step(utxos)->data_hash)
                == utxos[k]->Object_0["data_hash"@]
        },
{
    lemma_first_inline(utxos, utxos.len() as int);
    lemma_next_datum(utxos, 0, k);
}

/// The first output from `index` on that names a datum.
proof fn lemma_next_datum(utxos: Seq<JsonView>, index: int, k: int)
    requires
        0 <= index <= k <= utxos.len(),
        forall|i: int| index <= i < k ==> !gives_text(#[trigger] utxos[i], "data_hash"@),
        k < utxos.len() ==> gives_text(utxos[k], "data_hash"@),
    ensures
        agent::next_datum(utxos, index) == if k < utxos.len() {
            QueryView::FetchDatum {
                index: k,
                data_hash: utxos[k]->Object_0["data_hash"@]->Str_0,
            }
        } else {
            QueryView::Done(
                Err(ErrorView::NotFound("no UTxO with datum found at script address"@)),
            )
        },
    decreases k - index,
{
    if index < k {
        assert(!gives_text(utxos[index], "data_hash"@));
        lemma_next_datum(utxos, index + 1, k);
    }
}

/// An answer with a value under `json_value` ends the query with the state that it holds.
/// After any other answer, or none, the next output that names a datum is asked for.
pub proof fn lemma_answer_decides(
    utxos: Seq<JsonView>,
    index: int,
    answer: Option<JsonView>,
    k: int,
)
    requires
        0 <= index < k <= utxos.len(),
        forall|i: int| index < i < k ==> !gives_text(#[trigger] utxos[i], "data_hash"@),
        k < utxos.len() ==> gives_text(utxos[k], "data_hash"@),
    ensures
        answer is Some && given(answer->Some_0, "json_value"@) is Some ==> agent::step_after(
            utxos,
            index,
            answer,
        ) == QueryView::Done(types::state_of(answer->Some_0->Object_0["json_value"@])),
        answer is None || given(answer->Some_0, "json_value"@) is None ==> agent::step_after(
            utxos,
            index,
            answer,
        ) == if k < utxos.len() {
            QueryView::FetchDatum {
                index: k,
                data_hash: utxos[k]->Object_0["data_hash"@]->Str_0,
            }
        } else {
            QueryView::Done(
                Err(ErrorView::NotFound("no UTxO with datum found at script address"@)),
            )
        },
{
    lemma_next_datum(utxos, index + 1, k);
}

/// The number that an amount lists, and zero where it lists none.
pub open spec fn listed_u64(item: JsonView) -> u64 {
    if gives_text(item, "quantity"@) {
        match text::parse_u64(given(item, "quantity"@)->Some_0->Str_0) {
            Some(n) => n,
            None => 0,
        }
    } else {
        0
    }
}

/// The signed number that an amount lists, and zero where it lists none.
pub open spec fn listed_i64(item: JsonView) -> i64 {
    if gives_text(item, "quantity"@) {
        match text::parse_i64(given(item, "quantity"@)->Some_0->Str_0) {
            Some(n) => n,
            None => 0,
        }
    } else {
        0
    }
}

/// Zero is read as zero.
proof fn lemma_zero()
    ensures
        text::parse_u64("0"@) == Some(0u64),
        text::parse_i64("0"@) == Some(0i64),
        ""@ == Seq::<char>::empty(),
{
    reveal_strlit("0");
    reveal_strlit("");
    assert(""@ =~= Seq::<char>::empty());
    let s = "0"@;
    assert(s.drop_last().len() == 0);
    assert(text::digits_value(s.drop_last()) == 0);
    assert(text::digits_value(s) == 0);
    assert(text::is_digits(s));
}

/// The last amount of lovelace counts, and none is zero.
pub proof fn lemma_lovelace_listed(items: Seq<JsonView>, unit: Seq<char>, k: int)
    requires
        -1 <= k < items.len(),
        k >= 0 ==> text_or(items[k], "unit"@, Seq::empty()) == "lovelace"@,
        forall|i: int|
            k < i < items.len() ==> text_or(#[trigger] items[i], "unit"@, Seq::empty())
                != "lovelace"@,
    ensures
        operator::amounts_of(items, unit).0 == if k >= 0 {
            listed_u64(items[k])
        } else {
            0
        },
    decreases items.len(),
{
    lemma_zero();
    if items.len() > 0 {
        if k < items.len() - 1 {
            assert(text_or(items[items.len() - 1], "unit"@, Seq::empty()) != "lovelace"@);
            lemma_lovelace_listed(items.drop_last(), unit, k);
        }
    }
}

/// The last amount of cBTC counts, and none is zero.
pub proof fn lemma_cbtc_listed(items: Seq<JsonView>, unit: Seq<char>, k: int)
    requires
        unit != "lovelace"@,
        -1 <= k < items.len(),
        k >= 0 ==> text_or(items[k], "unit"@, Seq::empty()) == unit,
        forall|i: int|
            k < i < items.len() ==> text_or(#[trigger] items[i], "unit"@, Seq::empty()) != unit,
    ensures
        operator::amounts_of(items, unit).1 == if k >= 0 {
            listed_i64(items[k])
        } else {
            0
        },
    decreases items.len(),
{
    lemma_zero();
    if items.len() > 0 {
        if k < items.len() - 1 {
            assert(text_or(items[items.len() - 1], "unit"@, Seq::empty()) != unit);
            lemma_cbtc_listed(items.drop_last(), unit, k);
        }
    }
}

/// The amounts of an output are listed under `amount`. Without them it holds nothing.
pub proof fn lemma_amounts_are_listed(utxo: JsonView, unit: Seq<char>)
    ensures
        match given(utxo, "amount"@) {
            Some(JsonView::Array(items)) => operator::utxo_amounts(utxo, unit)
                == operator::amounts_of(items, unit),
            _ => operator::utxo_amounts(utxo, unit) == (0u64, 0i64),
        },
{
}

/// The index of an output in its transaction stands under `output_index`, or under `tx_index`
/// where there is no other.
pub open spec fn listed_index(utxo: JsonView) -> Option<u64> {
    match (given(utxo, "output_index"@), given(utxo, "tx_index"@)) {
        (Some(JsonView::Number(NumberView::Unsigned(n))), _) => Some(n),
        (None, Some(JsonView::Number(NumberView::Unsigned(n)))) => Some(n),
        _ => None,
    }
}

/// The script output is the first one with an inline datum. Its hash, its index and its
/// amounts are those that it lists; without a hash or an index it is refused.
pub proof fn lemma_script_utxo_found(utxos: Seq<JsonView>, unit: Seq<char>, k: int)
    requires
        0 <= k <= utxos.len(),
        forall|i: int| 0 <= i < k ==> !has_inline_datum(#[trigger] utxos[i]),
        k < utxos.len() ==> has_inline_datum(utxos[k]),
    ensures
        match operator::script_utxo_of(utxos, unit) {
            Ok(u) => {
                &&& k < utxos.len()
                &&& given(utxos[k], "tx_hash"@) == Some(JsonView::Str(u.tx_hash))
                &&& listed_index(utxos[k]) is Some
                &&& u.tx_index == listed_index(utxos[k])->Some_0 as u32
                &&& (u.lovelace, u.cbtc_amount) == operator::utxo_amounts(utxos[k], unit)
            },
            Err(e) => if k == utxos.len() {
                e == ErrorView::NotFound("no script UTxO with inline datum found"@)
            } else if !gives_text(utxos[k], "tx_hash"@) {
                e == ErrorView::Parse("missing tx_hash"@)
            } else {
                &&& listed_index(utxos[k]) is None
                &&& e == ErrorView::Parse("missing output_index"@)
            },
        },
    decreases utxos.len(),
{
    if k > 0 {
        let rest = utxos.skip(1);
        assert forall|i: int| 0 <= i < k - 1 implies !has_inline_datum(#[trigger] rest[i]) by {
            assert(rest[i] == utxos[i + 1]);
        }
        lemma_script_utxo_found(rest, unit, k - 1);
        assert(!has_inline_datum(utxos[0]));
        if k < utxos.len() {
            assert(rest[k - 1] == utxos[k]);
        }
    }
}

/// An output of the wallet has the hash, the index and the amounts that it lists, and lies at
/// the address that was asked for. What it does not list has a default.
pub proof fn lemma_wallet_utxo_read(j: JsonView, address: Seq<char>)
    ensures
        ({
            let u = operator::wallet_utxo(j, address);
            &&& u.tx_hash == text_or(j, "tx_hash"@, Seq::empty())
            &&& u.output_index == if listed_index(j) is Some {
                listed_index(j)->Some_0 as u32
            } else {
                0
            }
            &&& u.address == address
            &&& match given(j, "amount"@) {
                Some(JsonView::Array(items)) => {
                    &&& u.amount.len() == items.len()
                    &&& forall|i: int|
                        0 <= i < items.len() ==> {
                            &&& (#[trigger] u.amount[i]).unit == text_or(
                                items[i],
                                "unit"@,
                                "lovelace"@,
                            )
                            &&& u.amount[i].quantity == text_or(items[i], "quantity"@, "0"@)
                        }
                },
                _ => u.amount.len() == 0,
            }
        }),
{
    lemma_zero();
}

/// Each part of the context of a transaction is taken from where it belongs: the script output
/// that was found, the configuration of the agent, that of the operator, and the wallet.
pub proof fn lemma_context_parts(
    cardano: ConfigView,
    config: OperatorView,
    network: NetworkView,
    info: InfoView,
    wallet: Seq<UtxoView>,
)
    ensures
        ({
            let ctx = operator::context_of(cardano, config, network, info, wallet);
            &&& ctx.script_tx_hash == info.tx_hash
            &&& ctx.script_tx_index == info.tx_index
            &&& ctx.script_lovelace == info.lovelace
            &&& ctx.script_cbtc == info.cbtc_amount
            &&& ctx.script_address == cardano.script_address
            &&& ctx.script_cbor == config.script_cbor
            &&& ctx.operator_address == config.operator_address
            &&& ctx.operator_pkh == config.operator_pkh
            &&& ctx.operator_skey == config.skey_hex
            &&& ctx.cbtc_policy == config.cbtc_policy
            &&& ctx.cbtc_name == config.cbtc_name
            &&& ctx.cbtc_unit() == config.cbtc_policy + config.cbtc_name
            &&& ctx.wallet_utxos == wallet
            &&& ctx.network == network
            &&& ctx.protocol_params is None
        }),
{
}

/// A signed transaction is submitted as the bytes that its text stands for, and only where it
/// stands for some.
pub proof fn lemma_submission_parts(base: Seq<char>, tx_hex: Seq<char>)
    ensures
        match operator::submission(base, tx_hex) {
            Ok(s) => {
                &&& base16::is_hex(tx_hex)
                &&& s.body == base16::hex_bytes(tx_hex)
                &&& s.url == operator::submit_url(base)
            },
            Err(e) => {
                &&& !base16::is_hex(tx_hex)
                &&& e == ErrorView::Parse("invalid tx hex: "@ + base16::hex_error(tx_hex))
            },
        },
{
}

/// Whether `n` is what an unsigned parameter says, as a number or in digits.
pub open spec fn says_unsigned(p: JsonView, key: Seq<char>, n: u64) -> bool {
    match given(p, key) {
        Some(JsonView::Number(NumberView::Unsigned(k))) => n == k,
        Some(JsonView::Str(s)) => match text::parse_u64(s) {
            Some(k) => n == k,
            None => n == 0,
        },
        _ => n == 0,
    }
}

/// Whether `n` is what a signed parameter says.
pub open spec fn says_i32(p: JsonView, key: Seq<char>, n: i32) -> bool {
    match given(p, key) {
        Some(JsonView::Number(NumberView::Unsigned(k))) => if k <= i64::MAX {
            n == k as i64 as i32
        } else {
            n == 0
        },
        Some(JsonView::Number(NumberView::Negative(k))) => n == k as i32,
        _ => n == 0,
    }
}

/// Whether `n` is what a small unsigned parameter says.
pub open spec fn says_u32(p: JsonView, key: Seq<char>, n: u32) -> bool {
    match given(p, key) {
        Some(JsonView::Number(NumberView::Unsigned(k))) => n == k as u32,
        _ => n == 0,
    }
}

/// Whether `s` is the text of the number that a parameter says.
pub open spec fn says_fraction(p: JsonView, key: Seq<char>, s: Seq<char>) -> bool {
    match given(p, key) {
        Some(JsonView::Number(NumberView::Unsigned(k))) => s == text::decimal(k as int),
        Some(JsonView::Number(NumberView::Negative(k))) => s == text::decimal(k as int),
        Some(JsonView::Number(NumberView::Other(t))) => s == t,
        _ => s == "0"@,
    }
}

/// Whether `s` is what a parameter says, as text.
pub open spec fn says_text(p: JsonView, key: Seq<char>, s: Seq<char>) -> bool {
    match given(p, key) {
        Some(JsonView::Str(t)) => s == t,
        Some(JsonView::Number(NumberView::Unsigned(k))) => s == text::decimal(k as int),
        Some(v) => s == json::json_text(v),
        None => s.len() == 0,
    }
}

/// Each protocol parameter is read from under its own key.
pub proof fn lemma_protocol_read(p: JsonView)
    ensures
        ({
            let v = parameters::protocol_of(p);
            &&& says_i32(p, "epoch"@, v.epoch)
            &&& says_unsigned(p, "min_fee_a"@, v.min_fee_a)
            &&& says_unsigned(p, "min_fee_b"@, v.min_fee_b)
            &&& says_i32(p, "max_block_size"@, v.max_block_size)
            &&& says_u32(p, "max_tx_size"@, v.max_tx_size)
            &&& says_i32(p, "max_block_header_size"@, v.max_block_header_size)
            &&& says_unsigned(p, "key_deposit"@, v.key_deposit)
            &&& says_unsigned(p, "pool_deposit"@, v.pool_deposit)
            &&& says_fraction(p, "decentralisation_param"@, v.decentralisation)
            &&& says_text(p, "min_pool_cost"@, v.min_pool_cost)
            &&& says_fraction(p, "price_mem"@, v.price_mem)
            &&& says_fraction(p, "price_step"@, v.price_step)
            &&& says_text(p, "max_tx_ex_mem"@, v.max_tx_ex_mem)
            &&& says_text(p, "max_tx_ex_steps"@, v.max_tx_ex_steps)
            &&& says_text(p, "max_block_ex_mem"@, v.max_block_ex_mem)
            &&& says_text(p, "max_block_ex_steps"@, v.max_block_ex_steps)
            &&& says_u32(p, "max_val_size"@, v.max_val_size)
            &&& says_fraction(p, "collateral_percent"@, v.collateral_percent)
            &&& says_i32(p, "max_collateral_inputs"@, v.max_collateral_inputs)
            &&& says_unsigned(p, "coins_per_utxo_size"@, v.coins_per_utxo_size)
            &&& says_unsigned(
                p,
                "min_fee_ref_script_cost_per_byte"@,
                v.min_fee_ref_script_cost_per_byte,
            )
        }),
{
}

/// The integer of a document, where it is one.
pub open spec fn integer_in(j: JsonView) -> Option<i64> {
    match j {
        JsonView::Number(NumberView::Unsigned(n)) => if n <= i64::MAX {
            Some(n as i64)
        } else {
            None
        },
        JsonView::Number(NumberView::Negative(n)) => Some(n),
        _ => None,
    }
}

/// The integers that an object holds under some keys, one behind the other.
pub open spec fn integers_under(
    entries: Map<Seq<char>, JsonView>,
    keys: Seq<Seq<char>>,
) -> Seq<i64> {
    keys.filter_map(|key: Seq<char>| integer_in(entries[key]))
}

/// Whether `values` are the integers of an object in the order of its keys, each key once.
pub open spec fn lists_costs(entries: Map<Seq<char>, JsonView>, values: Seq<i64>) -> bool {
    exists|keys: Seq<Seq<char>>|
        {
            &&& forall|i: int, j: int|
                0 <= i < j < keys.len() ==> text::precedes(#[trigger] keys[i], #[trigger] keys[j])
            &&& forall|key: Seq<char>| #[trigger]
                keys.contains(key) <==> entries.contains_key(key)
            &&& values == #[trigger] integers_under(entries, keys)
        }
}

/// The integers under some keys.
proof fn lemma_integers(entries: Map<Seq<char>, JsonView>, keys: Seq<Seq<char>>)
    ensures
        parameters::integers_at(entries, keys) == integers_under(entries, keys),
    decreases keys.len(),
{
    if keys.len() > 0 {
        lemma_integers(entries, keys.drop_last());
        let before = parameters::integers_at(entries, keys.drop_last());
        if let Some(n) = integer_in(entries[keys.last()]) {
            assert(before.push(n) =~= before + seq![n]);
        }
    }
}

/// A cost model lists the integers of its object in the order of the keys.
pub proof fn lemma_cost_model_lists(entries: Map<Seq<char>, JsonView>, values: Seq<i64>)
    requires
        parameters::is_cost_model(entries, values),
    ensures
        lists_costs(entries, values),
{
    let keys = choose|keys: Seq<Seq<char>>| #[trigger]
        parameters::are_ordered_keys(entries, keys) && values == parameters::integers_at(
            entries,
            keys,
        );
    lemma_integers(entries, keys);
    assert forall|key: Seq<char>| #[trigger] keys.contains(key) implies entries.contains_key(
        key,
    ) by {
        let i = choose|i: int| 0 <= i < keys.len() && keys[i] == key;
        assert(entries.contains_key(keys[i]));
    }
}

/// Whether a language has a cost model.
pub open spec fn has_model(models: JsonView, language: Seq<char>) -> bool {
    given(models, language) is Some && given(models, language)->Some_0 is Object
}

/// One where there is a cost model, and else zero.
pub open spec fn count_model(models: JsonView, language: Seq<char>) -> int {
    if has_model(models, language) {
        1
    } else {
        0
    }
}

/// The cost models are listed one for each version of Plutus that has one, the oldest first.
pub proof fn lemma_cost_models_in_order(models: JsonView, list: Seq<Seq<i64>>)
    requires
        parameters::are_cost_models(models, parameters::languages(), list),
    ensures
        ({
            let v1 = count_model(models, "PlutusV1"@);
            let v2 = count_model(models, "PlutusV2"@);
            let v3 = count_model(models, "PlutusV3"@);
            &&& list.len() == v1 + v2 + v3
            &&& v1 == 1 ==> lists_costs(models->Object_0["PlutusV1"@]->Object_0, list[0])
            &&& v2 == 1 ==> lists_costs(models->Object_0["PlutusV2"@]->Object_0, list[v1])
            &&& v3 == 1 ==> lists_costs(models->Object_0["PlutusV3"@]->Object_0, list[v1 + v2])
        }),
{
    let all = parameters::languages();
    let two = all.drop_last();
    let one = two.drop_last();
    assert(all.last() == "PlutusV3"@ && two.last() == "PlutusV2"@ && one.last() == "PlutusV1"@);
    assert(one.drop_last().len() == 0);
    let after3 = if has_model(models, "PlutusV3"@) {
        lemma_cost_model_lists(models->Object_0["PlutusV3"@]->Object_0, list.last());
        list.drop_last()
    } else {
        list
    };
    assert(parameters::are_cost_models(models, two, after3));
    let after2 = if has_model(models, "PlutusV2"@) {
        lemma_cost_model_lists(models->Object_0["PlutusV2"@]->Object_0, after3.last());
        after3.drop_last()
    } else {
        after3
    };
    assert(parameters::are_cost_models(models, one, after2));
    let after1 = if has_model(models, "PlutusV1"@) {
        lemma_cost_model_lists(models->Object_0["PlutusV1"@]->Object_0, after2.last());
        after2.drop_last()
    } else {
        after2
    };
    assert(parameters::are_cost_models(models, one.drop_last(), after1));
    assert(after1.len() == 0);
}

} // verus!

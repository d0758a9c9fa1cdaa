//! Protocol parameters and cost models, as a Blockfrost-compatible API gives them.

use crate::agent::CardanoAgent;
use crate::error::{CardanoError, ErrorView};
use crate::json::{write_json, Json, JsonView, Number, NumberView};
use crate::text::{i64_text, is_before, read_u64, same, u64_text};
use crate::tx_builder::{ProtocolParams, ProtocolView};
use crate::{error, json, text};
use vstd::prelude::*;
use vstd::string::*;

verus! {

/// The unsigned parameter under `key`: a string of digits or a number, and zero without one.
pub open spec fn unsigned_param(p: JsonView, key: Seq<char>) -> u64 {
    match json::member(p, key) {
        Some(JsonView::Str(s)) => match text::parse_u64(s) {
            Some(n) => n,
            None => 0,
        },
        Some(v) => match json::unsigned(v) {
            Some(n) => n,
            None => 0,
        },
        None => 0,
    }
}

/// The parameter under `key` in the low bits of an `i32`, and zero without one.
pub open spec fn i32_param(p: JsonView, key: Seq<char>) -> i32 {
    match json::integer_at(p, key) {
        Some(n) => n as i32,
        None => 0,
    }
}

/// The parameter under `key` in the low bits of a `u32`, and zero without one.
pub open spec fn u32_param(p: JsonView, key: Seq<char>) -> u32 {
    match json::unsigned_at(p, key) {
        Some(n) => n as u32,
        None => 0,
    }
}

/// The text of the number under `key`, and zero without one.
pub open spec fn fraction_param(p: JsonView, key: Seq<char>) -> Seq<char> {
    match json::member(p, key) {
        Some(JsonView::Number(NumberView::Unsigned(n))) => text::decimal(n as int),
        Some(JsonView::Number(NumberView::Negative(n))) => text::decimal(n as int),
        Some(JsonView::Number(NumberView::Other(s))) => s,
        _ => "0"@,
    }
}

/// The parameter under `key` as text: a string as it is, a number from zero up in decimal, and
/// anything else as JSON.
pub open spec fn text_param(p: JsonView, key: Seq<char>) -> Seq<char> {
    match json::member(p, key) {
        Some(JsonView::Str(s)) => s,
        Some(JsonView::Number(NumberView::Unsigned(n))) => text::decimal(n as int),
        Some(v) => json::json_text(v),
        None => Seq::empty(),
    }
}

/// The protocol parameters of an epoch.
pub open spec fn protocol_of(p: JsonView) -> ProtocolView {
    ProtocolView {
        epoch: i32_param(p, "epoch"@),
        min_fee_a: unsigned_param(p, "min_fee_a"@),
        min_fee_b: unsigned_param(p, "min_fee_b"@),
        max_block_size: i32_param(p, "max_block_size"@),
        max_tx_size: u32_param(p, "max_tx_size"@),
        max_block_header_size: i32_param(p, "max_block_header_size"@),
        key_deposit: unsigned_param(p, "key_deposit"@),
        pool_deposit: unsigned_param(p, "pool_deposit"@),
        decentralisation: fraction_param(p, "decentralisation_param"@),
        min_pool_cost: text_param(p, "min_pool_cost"@),
        price_mem: fraction_param(p, "price_mem"@),
        price_step: fraction_param(p, "price_step"@),
        max_tx_ex_mem: text_param(p, "max_tx_ex_mem"@),
        max_tx_ex_steps: text_param(p, "max_tx_ex_steps"@),
        max_block_ex_mem: text_param(p, "max_block_ex_mem"@),
        max_block_ex_steps: text_param(p, "max_block_ex_steps"@),
        max_val_size: u32_param(p, "max_val_size"@),
        collateral_percent: fraction_param(p, "collateral_percent"@),
        max_collateral_inputs: i32_param(p, "max_collateral_inputs"@),
        coins_per_utxo_size: unsigned_param(p, "coins_per_utxo_size"@),
        min_fee_ref_script_cost_per_byte: unsigned_param(p, "min_fee_ref_script_cost_per_byte"@),
    }
}

/// Reads the unsigned parameter under `key`.
fn parse_u64(p: &Json, key: &str) -> (r: u64)
    ensures
        r == unsigned_param(p@, key@),
{
    let read: Option<u64> = match p.get(key) {
        Some(v) => match v.as_str() {
            Some(s) => read_u64(s),
            None => v.as_u64(),
        },
        None => None,
    };
    match read {
        Some(n) => n,
        None => 0,
    }
}

/// Reads the signed parameter under `key`.
fn parse_i32(p: &Json, key: &str) -> (r: i32)
    ensures
        r == i32_param(p@, key@),
{
    match p.get_i64(key) {
        Some(n) => n as i32,
        None => 0,
    }
}

/// Reads the small unsigned parameter under `key`.
fn parse_u32(p: &Json, key: &str) -> (r: u32)
    ensures
        r == u32_param(p@, key@),
{
    match p.get_u64(key) {
        Some(n) => n as u32,
        None => 0,
    }
}

/// Reads the number under `key`, by its text.
fn parse_fraction(p: &Json, key: &str) -> (r: String)
    ensures
        r@ == fraction_param(p@, key@),
{
    match p.get(key) {
        Some(Json::Number(Number::Unsigned(n))) => u64_text(*n),
        Some(Json::Number(Number::Negative(n))) => i64_text(*n),
        Some(Json::Number(Number::Other(s))) => s.clone(),
        _ => "0".to_owned(),
    }
}

/// Reads the parameter under `key` as text.
fn parse_string(p: &Json, key: &str) -> (r: String)
    ensures
        r@ == text_param(p@, key@),
{
    match p.get(key) {
        Some(Json::Str(s)) => s.clone(),
        Some(Json::Number(Number::Unsigned(n))) => u64_text(*n),
        Some(v) => write_json(v),
        None => String::new(),
    }
}

impl ProtocolParams {
    /// Reads the protocol parameters of an epoch.
    pub fn from_json(p: &Json) -> (r: ProtocolParams)
        ensures
            r@ == protocol_of(p@),
    {
        ProtocolParams {
            epoch: parse_i32(p, "epoch"),
            min_fee_a: parse_u64(p, "min_fee_a"),
            min_fee_b: parse_u64(p, "min_fee_b"),
            max_block_size: parse_i32(p, "max_block_size"),
            max_tx_size: parse_u32(p, "max_tx_size"),
            max_block_header_size: parse_i32(p, "max_block_header_size"),
            key_deposit: parse_u64(p, "key_deposit"),
            pool_deposit: parse_u64(p, "pool_deposit"),
            decentralisation: parse_fraction(p, "decentralisation_param"),
            min_pool_cost: parse_string(p, "min_pool_cost"),
            price_mem: parse_fraction(p, "price_mem"),
            price_step: parse_fraction(p, "price_step"),
            max_tx_ex_mem: parse_string(p, "max_tx_ex_mem"),
            max_tx_ex_steps: parse_string(p, "max_tx_ex_steps"),
            max_block_ex_mem: parse_string(p, "max_block_ex_mem"),
            max_block_ex_steps: parse_string(p, "max_block_ex_steps"),
            max_val_size: parse_u32(p, "max_val_size"),
            collateral_percent: parse_fraction(p, "collateral_percent"),
            max_collateral_inputs: parse_i32(p, "max_collateral_inputs"),
            coins_per_utxo_size: parse_u64(p, "coins_per_utxo_size"),
            min_fee_ref_script_cost_per_byte: parse_u64(p, "min_fee_ref_script_cost_per_byte"),
        }
    }
}

/// Whether one parameter is a number from zero up and the other its decimal numeral.
pub open spec fn are_number_and_numeral(
    a: Option<JsonView>,
    b: Option<JsonView>,
    n: u64,
) -> bool {
    a == Some(JsonView::Number(NumberView::Unsigned(n))) && b == Some(
        JsonView::Str(text::decimal(n as int)),
    )
}

/// Whether two parameters are the same, or the same number once as such and once in a string.
pub open spec fn are_alike(a: Option<JsonView>, b: Option<JsonView>) -> bool {
    ||| a == b
    ||| exists|n: u64| #[trigger] are_number_and_numeral(a, b, n)
    ||| exists|n: u64| #[trigger] are_number_and_numeral(b, a, n)
}

/// Whether the parameter under a key may be given as a number or in a string.
pub open spec fn is_number_or_string(key: Seq<char>) -> bool {
    ||| key == "min_fee_a"@
    ||| key == "min_fee_b"@
    ||| key == "key_deposit"@
    ||| key == "pool_deposit"@
    ||| key == "min_pool_cost"@
    ||| key == "max_tx_ex_mem"@
    ||| key == "max_tx_ex_steps"@
    ||| key == "max_block_ex_mem"@
    ||| key == "max_block_ex_steps"@
    ||| key == "coins_per_utxo_size"@
    ||| key == "min_fee_ref_script_cost_per_byte"@
}

/// Whether the parameter under a key is read only where it is a number.
pub open spec fn is_number_only(key: Seq<char>) -> bool {
    ||| key == "epoch"@
    ||| key == "max_block_size"@
    ||| key == "max_tx_size"@
    ||| key == "max_block_header_size"@
    ||| key == "decentralisation_param"@
    ||| key == "price_mem"@
    ||| key == "price_step"@
    ||| key == "max_val_size"@
    ||| key == "collateral_percent"@
    ||| key == "max_collateral_inputs"@
}

/// A parameter is read alike as a number and in a string.
proof fn lemma_alike(p: JsonView, q: JsonView, key: Seq<char>)
    requires
        are_alike(json::member(p, key), json::member(q, key)),
    ensures
        unsigned_param(p, key) == unsigned_param(q, key),
        text_param(p, key) == text_param(q, key),
{
    let a = json::member(p, key);
    let b = json::member(q, key);
    if a != b {
        if exists|n: u64| #[trigger] are_number_and_numeral(a, b, n) {
            text::lemma_u64_round_trip(choose|n: u64| #[trigger] are_number_and_numeral(a, b, n));
        } else {
            text::lemma_u64_round_trip(choose|n: u64| #[trigger] are_number_and_numeral(b, a, n));
        }
    }
}

/// The protocol parameters do not depend on whether the API gives a fee, a deposit, a cost or
/// a limit of execution as a number or as its decimal numeral in a string.
pub proof fn lemma_numbers_and_strings_alike(p: JsonView, q: JsonView)
    requires
        forall|key: Seq<char>| #[trigger]
            is_number_or_string(key) ==> are_alike(json::member(p, key), json::member(q, key)),
        forall|key: Seq<char>| #[trigger]
            is_number_only(key) ==> json::member(p, key) == json::member(q, key),
    ensures
        protocol_of(p) == protocol_of(q),
{
    assert forall|key: Seq<char>| #[trigger] is_number_or_string(key) implies unsigned_param(p, key)
        == unsigned_param(q, key) && text_param(p, key) == text_param(q, key) by {
        lemma_alike(p, q, key);
    }
    assert(is_number_or_string("min_fee_a"@) && is_number_or_string("min_fee_b"@));
    assert(is_number_or_string("key_deposit"@) && is_number_or_string("pool_deposit"@));
    assert(is_number_or_string("min_pool_cost"@));
    assert(is_number_or_string("max_tx_ex_mem"@) && is_number_or_string("max_tx_ex_steps"@));
    assert(is_number_or_string("max_block_ex_mem"@) && is_number_or_string("max_block_ex_steps"@));
    assert(is_number_or_string("coins_per_utxo_size"@));
    assert(is_number_or_string("min_fee_ref_script_cost_per_byte"@));
    assert(is_number_only("epoch"@) && is_number_only("max_block_size"@));
    assert(is_number_only("max_tx_size"@) && is_number_only("max_block_header_size"@));
    assert(is_number_only("decentralisation_param"@) && is_number_only("price_mem"@));
    assert(is_number_only("price_step"@) && is_number_only("max_val_size"@));
    assert(is_number_only("collateral_percent"@) && is_number_only("max_collateral_inputs"@));
}

/// Whether `keys` are the keys of an object, each once and in their order.
pub open spec fn are_ordered_keys(
    entries: Map<Seq<char>, JsonView>,
    keys: Seq<Seq<char>>,
) -> bool {
    &&& forall|i: int, j: int|
        0 <= i < j < keys.len() ==> text::precedes(#[trigger] keys[i], #[trigger] keys[j])
    &&& forall|i: int| 0 <= i < keys.len() ==> entries.contains_key(#[trigger] keys[i])
    &&& forall|key: Seq<char>| #[trigger] entries.contains_key(key) ==> keys.contains(key)
}

/// The integers that an object holds under some keys, in their order. What is no integer is
/// left out.
pub open spec fn integers_at(
    entries: Map<Seq<char>, JsonView>,
    keys: Seq<Seq<char>>,
) -> Seq<i64>
    decreases keys.len(),
{
    if keys.len() == 0 {
        Seq::empty()
    } else {
        let before = integers_at(entries, keys.drop_last());
        match json::integer(entries[keys.last()]) {
            Some(n) => before.push(n),
            None => before,
        }
    }
}

/// Whether `values` are the integers of an object in the order of its keys.
pub open spec fn is_cost_model(entries: Map<Seq<char>, JsonView>, values: Seq<i64>) -> bool {
    exists|keys: Seq<Seq<char>>| #[trigger]
        are_ordered_keys(entries, keys) && values == integers_at(entries, keys)
}

/// The cost model of a language, where there is one.
pub open spec fn model_entries(models: JsonView, language: Seq<char>) -> Option<
    Map<Seq<char>, JsonView>,
> {
    match json::member(models, language) {
        Some(JsonView::Object(entries)) => Some(entries),
        _ => None,
    }
}

/// Whether `list` holds the cost models of some languages in their order; a language without
/// one is left out.
pub open spec fn are_cost_models(
    models: JsonView,
    languages: Seq<Seq<char>>,
    list: Seq<Seq<i64>>,
) -> bool
    decreases languages.len(),
{
    if languages.len() == 0 {
        list.len() == 0
    } else {
        match model_entries(models, languages.last()) {
            Some(entries) => list.len() > 0 && is_cost_model(entries, list.last())
                && are_cost_models(models, languages.drop_last(), list.drop_last()),
            None => are_cost_models(models, languages.drop_last(), list),
        }
    }
}

/// The languages of Plutus scripts.
pub open spec fn languages() -> Seq<Seq<char>> {
    seq!["PlutusV1"@, "PlutusV2"@, "PlutusV3"@]
}

/// The keys of the entries at some positions.
spec fn keys_at(entries: Seq<(String, Json)>, order: Seq<usize>) -> Seq<Seq<char>> {
    Seq::new(order.len(), |k: int| entries[order[k] as int].0@)
}

/// Whether `order` lists the last entry of each key among the first `n`, in the order of the
/// keys.
spec fn is_order(entries: Seq<(String, Json)>, n: int, order: Seq<usize>) -> bool {
    &&& forall|k: int| 0 <= k < order.len() ==> 0 <= #[trigger] order[k] < n
    &&& are_ordered_keys(json::object_view(entries.take(n)), keys_at(entries, order))
    &&& forall|k: int|
        0 <= k < order.len() ==> json::object_view(
            entries.take(n),
        )[entries[(#[trigger] order[k]) as int].0@] == entries[order[k] as int].1@
}

/// Adding an entry behind the first `n` puts it where its key belongs: in place of the
/// entry of the same key, or between its neighbours.
proof fn lemma_insert(
    entries: Seq<(String, Json)>,
    n: int,
    order: Seq<usize>,
    p: int,
    replace: bool,
)
    requires
        0 <= n < entries.len(),
        n <= usize::MAX,
        is_order(entries, n, order),
        0 <= p <= order.len(),
        forall|k: int|
            0 <= k < p ==> text::precedes(
                entries[(#[trigger] order[k]) as int].0@,
                entries[n].0@,
            ),
        replace ==> p < order.len() && entries[order[p] as int].0@ == entries[n].0@,
        !replace && p < order.len() ==> text::precedes(
            entries[n].0@,
            entries[order[p] as int].0@,
        ),
    ensures
        replace ==> is_order(entries, n + 1, order.update(p, n as usize)),
        !replace ==> is_order(entries, n + 1, order.insert(p, n as usize)),
{
    let before = json::object_view(entries.take(n));
    let after = json::object_view(entries.take(n + 1));
    let key = entries[n].0@;
    let keys = keys_at(entries, order);
    assert(entries.take(n + 1).drop_last() =~= entries.take(n));
    assert(after == before.insert(key, entries[n].1@));
    if replace {
        let new = order.update(p, n as usize);
        assert(keys_at(entries, new) =~= keys);
        assert(keys[p] == key);
        assert forall|k: int| 0 <= k < new.len() implies after[entries[(
        #[trigger] new[k]) as int].0@] == entries[new[k] as int].1@ by {
            if k != p {
                assert(keys[k] == entries[order[k] as int].0@);
                if k < p {
                    assert(text::precedes(keys[k], keys[p]));
                } else {
                    assert(text::precedes(keys[p], keys[k]));
                }
                text::lemma_precedes_irreflexive(key);
            }
        }
        assert forall|k: Seq<char>| #[trigger] after.contains_key(k) implies keys.contains(k) by {
            if k != key {
                assert(before.contains_key(k));
            } else {
                assert(keys[p] == k);
            }
        }
    } else {
        let new = order.insert(p, n as usize);
        let new_keys = keys_at(entries, new);
        assert(new_keys =~= keys.insert(p, key));
        assert forall|k: int| p <= k < keys.len() implies text::precedes(
            key,
            #[trigger] keys[k],
        ) by {
            assert(keys[p] == entries[order[p] as int].0@);
            if k > p {
                assert(text::precedes(keys[p], keys[k]));
                text::lemma_precedes_transitive(key, keys[p], keys[k]);
            }
        }
        assert forall|k: int| 0 <= k < p implies text::precedes(#[trigger] keys[k], key) by {
            assert(keys[k] == entries[order[k] as int].0@);
        }
        assert forall|i: int, j: int| 0 <= i < j < new_keys.len() implies text::precedes(
            #[trigger] new_keys[i],
            #[trigger] new_keys[j],
        ) by {
            let a = if i < p {
                i
            } else {
                i - 1
            };
            let b = if j < p {
                j
            } else {
                j - 1
            };
            if i != p {
                assert(new_keys[i] == keys[a]);
            }
            if j != p {
                assert(new_keys[j] == keys[b]);
            }
        }
        assert forall|i: int| 0 <= i < new_keys.len() implies after.contains_key(
            #[trigger] new_keys[i],
        ) by {
            if i < p {
                assert(new_keys[i] == keys[i]);
            } else if i > p {
                assert(new_keys[i] == keys[i - 1]);
            }
        }
        assert forall|k: Seq<char>| #[trigger] after.contains_key(k) implies new_keys.contains(
            k,
        ) by {
            if k == key {
                assert(new_keys[p] == k);
            } else {
                assert(before.contains_key(k));
                let i = choose|i: int| 0 <= i < keys.len() && keys[i] == k;
                if i < p {
                    assert(new_keys[i] == k);
                } else {
                    assert(new_keys[i + 1] == k);
                }
            }
        }
        assert forall|k: int| 0 <= k < new.len() implies 0 <= #[trigger] new[k] < n + 1 by {
            if k < p {
                assert(new[k] == order[k]);
            } else if k > p {
                assert(new[k] == order[k - 1]);
            }
        }
        assert forall|k: int| 0 <= k < new.len() implies after[entries[(
        #[trigger] new[k]) as int].0@] == entries[new[k] as int].1@ by {
            if k != p {
                let i = if k < p {
                    k
                } else {
                    k - 1
                };
                assert(new[k] == order[i]);
                assert(keys[i] == entries[order[i] as int].0@);
                text::lemma_precedes_irreflexive(key);
            }
        }
    }
}

/// Reads the integers of an object in the order of its keys.
fn cost_model(entries: &Vec<(String, Json)>) -> (r: Vec<i64>)
    ensures
        is_cost_model(json::object_view(entries@), r@),
{
    let mut order: Vec<usize> = Vec::new();
    let mut n: usize = 0;
    assert(entries@.take(0) =~= Seq::empty());
    while n < entries.len()
        invariant
            n <= entries.len(),
            is_order(entries@, n as int, order@),
        decreases entries.len() - n,
    {
        let key = entries[n].0.as_str();
        let mut p: usize = 0;
        while p < order.len() && is_before(entries[order[p]].0.as_str(), key)
            invariant
                n < entries.len(),
                p <= order.len(),
                key@ == entries[n as int].0@,
                is_order(entries@, n as int, order@),
                forall|k: int| 0 <= k < order.len() ==> #[trigger] order[k] < n,
                forall|k: int|
                    0 <= k < p ==> text::precedes(
                        entries@[(#[trigger] order@[k]) as int].0@,
                        key@,
                    ),
            decreases order.len() - p,
        {
            p = p + 1;
        }
        assert(p < order.len() ==> order@[p as int] < n);
        if p < order.len() && same(entries[order[p]].0.as_str(), key) {
            proof {
                lemma_insert(entries@, n as int, order@, p as int, true);
            }
            order.set(p, n);
        } else {
            proof {
                if p < order.len() {
                    text::lemma_precedes_total(entries@[order@[p as int] as int].0@, key@);
                }
                lemma_insert(entries@, n as int, order@, p as int, false);
            }
            order.insert(p, n);
        }
        n = n + 1;
    }
    assert(entries@.take(n as int) =~= entries@);
    let ghost map = json::object_view(entries@);
    let ghost keys = keys_at(entries@, order@);
    let mut values: Vec<i64> = Vec::new();
    let mut i: usize = 0;
    assert(keys.take(0) =~= Seq::empty());
    while i < order.len()
        invariant
            i <= order.len(),
            keys == keys_at(entries@, order@),
            map == json::object_view(entries@),
            forall|k: int| 0 <= k < order.len() ==> #[trigger] order[k] < entries.len(),
            forall|k: int|
                0 <= k < order.len() ==> map[entries@[(#[trigger] order@[k]) as int].0@]
                    == entries@[order@[k] as int].1@,
            values@ == integers_at(map, keys.take(i as int)),
        decreases order.len() - i,
    {
        assert(keys.take(i + 1).drop_last() =~= keys.take(i as int));
        assert(order@[i as int] < entries.len());
        if let Some(v) = entries[order[i]].1.as_i64() {
            values.push(v);
        }
        i = i + 1;
    }
    assert(keys.take(i as int) =~= keys);
    assert(are_ordered_keys(map, keys));
    values
}

/// Adds the cost model of a language to a list, where there is one.
fn add_cost_model(
    models: &Json,
    language: &str,
    list: &mut Vec<Vec<i64>>,
    languages: Ghost<Seq<Seq<char>>>,
)
    requires
        are_cost_models(models@, languages@, lists_view(old(list)@)),
    ensures
        are_cost_models(models@, languages@.push(language@), lists_view(final(list)@)),
{
    proof {
        assert(languages@.push(language@).drop_last() =~= languages@);
    }
    if let Some(Json::Object(entries)) = models.get(language) {
        let values = cost_model(entries);
        let ghost before = lists_view(list@);
        list.push(values);
        proof {
            assert(lists_view(list@) =~= before.push(values@));
            assert(before.push(values@).drop_last() =~= before);
        }
    }
}

/// The models of some lists.
pub open spec fn lists_view(lists: Seq<Vec<i64>>) -> Seq<Seq<i64>> {
    Seq::new(lists.len(), |i: int| lists[i]@)
}

/// What is said where the API refuses to give the protocol parameters.
pub open spec fn refusal() -> ErrorView {
    ErrorView::NotFound("failed to fetch epoch parameters"@)
}

impl CardanoAgent {
    /// Reads the protocol parameters for the calculation of fees from the API's answer.
    /// Without an answer, the API refused the request.
    pub fn fetch_protocol_params(&self, answer: Option<&Json>) -> (r: Result<
        ProtocolParams,
        CardanoError,
    >)
        ensures
            error::outcome(r) == match answer {
                Some(p) => Ok(protocol_of(p@)),
                None => Err(refusal()),
            },
    {
        match answer {
            Some(p) => Ok(ProtocolParams::from_json(p)),
            None => Err(CardanoError::not_found("failed to fetch epoch parameters")),
        }
    }

    /// Reads the cost models of Plutus V1, V2 and V3 from the API's answer, each as its
    /// values in the alphabetical order of their keys. Without an answer, the API refused the
    /// request.
    ///
    /// The order fits Plutus V1 and V2. New parameters of Plutus V3 disrupt it: for a known
    /// network, prefer the cost models that the SDK has for it.
    pub fn fetch_cost_models(&self, answer: Option<&Json>) -> (r: Result<
        Vec<Vec<i64>>,
        CardanoError,
    >)
        ensures
            match answer {
                Some(params) => match json::member(params@, "cost_models"@) {
                    Some(models) => r is Ok && are_cost_models(
                        models,
                        languages(),
                        lists_view(r->Ok_0@),
                    ),
                    None => r is Err && r->Err_0@ == ErrorView::NotFound(
                        "no cost_models in epoch parameters"@,
                    ),
                },
                None => r is Err && r->Err_0@ == refusal(),
            },
    {
        let params = match answer {
            Some(params) => params,
            None => {
                return Err(CardanoError::not_found("failed to fetch epoch parameters"));
            },
        };
        let models = match params.get("cost_models") {
            Some(models) => models,
            None => {
                return Err(CardanoError::not_found("no cost_models in epoch parameters"));
            },
        };
        let mut list: Vec<Vec<i64>> = Vec::new();
        let ghost none = Seq::<Seq<char>>::empty();
        add_cost_model(models, "PlutusV1", &mut list, Ghost(none));
        add_cost_model(models, "PlutusV2", &mut list, Ghost(none.push("PlutusV1"@)));
        add_cost_model(
            models,
            "PlutusV3",
            &mut list,
            Ghost(none.push("PlutusV1"@).push("PlutusV2"@)),
        );
        assert(none.push("PlutusV1"@).push("PlutusV2"@).push("PlutusV3"@) =~= languages());
        Ok(list)
    }
}

/// The keys of an object stand in one order only.
proof fn lemma_ordered_keys_unique(
    entries: Map<Seq<char>, JsonView>,
    a: Seq<Seq<char>>,
    b: Seq<Seq<char>>,
    n: int,
)
    requires
        are_ordered_keys(entries, a),
        are_ordered_keys(entries, b),
        0 <= n <= a.len(),
        n <= b.len(),
    ensures
        forall|i: int| 0 <= i < n ==> a[i] == b[i],
    decreases n,
{
    if n > 0 {
        lemma_ordered_keys_unique(entries, a, b, n - 1);
        let i = n - 1;
        if a[i] != b[i] {
            let j = choose|j: int| 0 <= j < b.len() && b[j] == a[i];
            let k = choose|k: int| 0 <= k < a.len() && a[k] == b[i];
            assert(b.contains(a[i]) && a.contains(b[i]));
            text::lemma_precedes_irreflexive(a[i]);
            text::lemma_precedes_irreflexive(b[i]);
            if j < i {
                assert(a[j] == b[j]);
                assert(text::precedes(a[j], a[i]));
            }
            if k < i {
                assert(a[k] == b[k]);
                assert(text::precedes(b[k], b[i]));
            }
            assert(text::precedes(b[i], b[j]));
            assert(text::precedes(a[i], a[k]));
            text::lemma_precedes_transitive(a[i], b[i], a[i]);
        }
    }
}

/// An object has one cost model only.
pub proof fn lemma_cost_model_unique(entries: Map<Seq<char>, JsonView>, x: Seq<i64>, y: Seq<i64>)
    requires
        is_cost_model(entries, x),
        is_cost_model(entries, y),
    ensures
        x == y,
{
    let a = choose|keys: Seq<Seq<char>>| #[trigger]
        are_ordered_keys(entries, keys) && x == integers_at(entries, keys);
    let b = choose|keys: Seq<Seq<char>>| #[trigger]
        are_ordered_keys(entries, keys) && y == integers_at(entries, keys);
    let n: int = if a.len() < b.len() {
        a.len() as int
    } else {
        b.len() as int
    };
    lemma_ordered_keys_unique(entries, a, b, n);
    if a.len() > n {
        assert(b.contains(a[n]));
        let j = choose|j: int| 0 <= j < b.len() && b[j] == a[n];
        assert(a[j] == b[j]);
        assert(text::precedes(a[j], a[n]));
        text::lemma_precedes_irreflexive(a[n]);
    }
    if b.len() > n {
        assert(a.contains(b[n]));
        let j = choose|j: int| 0 <= j < a.len() && a[j] == b[n];
        assert(a[j] == b[j]);
        assert(text::precedes(b[j], b[n]));
        text::lemma_precedes_irreflexive(b[n]);
    }
    assert(a =~= b);
}

/// The parameters of an epoch have one list of cost models only.
pub proof fn lemma_cost_models_unique(
    models: JsonView,
    languages: Seq<Seq<char>>,
    x: Seq<Seq<i64>>,
    y: Seq<Seq<i64>>,
)
    requires
        are_cost_models(models, languages, x),
        are_cost_models(models, languages, y),
    ensures
        x == y,
    decreases languages.len(),
{
    if languages.len() > 0 {
        match model_entries(models, languages.last()) {
            Some(entries) => {
                lemma_cost_model_unique(entries, x.last(), y.last());
                lemma_cost_models_unique(
                    models,
                    languages.drop_last(),
                    x.drop_last(),
                    y.drop_last(),
                );
                assert(x =~= x.drop_last().push(x.last()));
                assert(y =~= y.drop_last().push(y.last()));
            },
            None => {
                lemma_cost_models_unique(models, languages.drop_last(), x, y);
            },
        }
    } else {
        assert(x =~= y);
    }
}

} // verus!

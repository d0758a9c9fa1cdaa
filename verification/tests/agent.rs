use cardano_lightning_client::agent::{api_error, QueryStep};
use cardano_lightning_client::json::{Json, Number};
use cardano_lightning_client::tx_builder::ProtocolParams;
use cardano_lightning_client::{CardanoAgent, CardanoConfig, CardanoError, State};

fn text(s: &str) -> Json {
    Json::Str(s.to_string())
}

fn object(entries: Vec<(&str, Json)>) -> Json {
    Json::Object(entries.into_iter().map(|(k, v)| (k.to_string(), v)).collect())
}

fn agent() -> CardanoAgent {
    CardanoAgent::new(CardanoConfig {
        blockfrost_url: "http://node/api/v1//".to_string(),
        blockfrost_key: "key".to_string(),
        script_address: "addr".to_string(),
    })
}

fn number(n: i64) -> Json {
    Json::object1("int", Json::from_i128(n as i128))
}

fn plutus_state(total: i64) -> Json {
    Json::object2(
        "constructor",
        Json::from_i128(0),
        "fields",
        Json::Array(vec![
            number(total),
            number(0),
            number(0),
            Json::object1("list", Json::Array(vec![])),
        ]),
    )
}

fn done(step: QueryStep) -> Result<State, CardanoError> {
    match step {
        QueryStep::Done(r) => r,
        QueryStep::FetchDatum { .. } => panic!("asks for a datum"),
    }
}

fn asks(step: QueryStep) -> (usize, String) {
    match step {
        QueryStep::Done(_) => panic!("is done"),
        QueryStep::FetchDatum { index, data_hash } => (index, data_hash),
    }
}

#[test]
fn config_from_env() {
    let all = CardanoConfig::from_env(
        Some("addr".to_string()),
        Some("http://x/".to_string()),
        Some("id".to_string()),
    );
    assert_eq!(
        all,
        Ok(CardanoConfig {
            blockfrost_url: "http://x/".to_string(),
            blockfrost_key: "id".to_string(),
            script_address: "addr".to_string(),
        })
    );
    let defaults = CardanoConfig::from_env(Some("addr".to_string()), None, None).unwrap();
    assert_eq!(defaults.blockfrost_url, "http://localhost:8080/api/v1/");
    assert_eq!(defaults.blockfrost_key, "local");
    assert_eq!(defaults.clone(), defaults);
    assert_eq!(
        CardanoConfig::from_env(None, None, None),
        Err(CardanoError::NotFound("SCRIPT_ADDRESS env var not set".to_string()))
    );
}

#[test]
fn urls() {
    let agent = agent();
    assert_eq!(agent.config().script_address, "addr");
    assert_eq!(agent.utxos_url("addr1"), "http://node/api/v1/addresses/addr1/utxos");
    assert_eq!(agent.datum_url("ff00"), "http://node/api/v1/scripts/datum/ff00");
    assert_eq!(agent.parameters_url(), "http://node/api/v1/epochs/latest/parameters");
    assert_eq!(
        api_error("404 Not Found", "gone"),
        CardanoError::NotFound("Blockfrost API error 404 Not Found: gone".to_string())
    );
}

#[test]
fn query_without_outputs() {
    assert_eq!(
        done(agent().query_state(&vec![])),
        Err(CardanoError::NotFound("no UTxOs found at script address".to_string()))
    );
    assert_eq!(
        done(agent().query_state(&vec![object(vec![("inline_datum", Json::Null)])])),
        Err(CardanoError::NotFound("no UTxO with datum found at script address".to_string()))
    );
}

#[test]
fn query_takes_the_first_inline_datum() {
    let utxos = vec![
        object(vec![("inline_datum", Json::Null), ("data_hash", text("aa"))]),
        object(vec![("inline_datum", plutus_state(7))]),
        object(vec![("inline_datum", plutus_state(8))]),
    ];
    assert_eq!(done(agent().query_state(&utxos)).unwrap().total_liquidity, 7);
    let cbor = vec![object(vec![("inline_datum", text("d8799f1a000f424000009fffff"))])];
    assert_eq!(done(agent().query_state(&cbor)).unwrap().total_liquidity, 1_000_000);
    let broken = vec![
        object(vec![("inline_datum", text("f5"))]),
        object(vec![("inline_datum", plutus_state(8))]),
    ];
    assert_eq!(
        done(agent().query_state(&broken)),
        Err(CardanoError::Parse("unsupported CBOR value type: Bool(true)".to_string()))
    );
    let number = vec![object(vec![("inline_datum", Json::from_i128(3))])];
    assert_eq!(
        done(agent().query_state(&number)),
        Err(CardanoError::Parse("State: missing 'fields' array".to_string()))
    );
}

#[test]
fn query_falls_back_to_datums_by_hash() {
    let agent = agent();
    let utxos = vec![
        object(vec![]),
        object(vec![("data_hash", text("aa"))]),
        object(vec![("data_hash", Json::from_i128(1))]),
        object(vec![("data_hash", text("bb"))]),
    ];
    assert_eq!(asks(agent.query_state(&utxos)), (1, "aa".to_string()));
    // Refused, or answered without a value: the next one is asked for.
    assert_eq!(asks(agent.datum_answer(&utxos, 1, None)), (3, "bb".to_string()));
    assert_eq!(
        asks(agent.datum_answer(&utxos, 1, Some(&object(vec![])))),
        (3, "bb".to_string())
    );
    let answer = object(vec![("json_value", plutus_state(9))]);
    assert_eq!(done(agent.datum_answer(&utxos, 3, Some(&answer))).unwrap().total_liquidity, 9);
    assert_eq!(
        done(agent.datum_answer(&utxos, 3, None)),
        Err(CardanoError::NotFound("no UTxO with datum found at script address".to_string()))
    );
}

#[test]
fn protocol_params_are_read() {
    let answer = object(vec![
        ("epoch", Json::from_i128(512)),
        ("min_fee_a", Json::from_i128(44)),
        ("min_fee_b", text("155381")),
        ("max_block_size", Json::from_i128(4294967297)),
        ("max_tx_size", Json::Number(Number::Unsigned(4294967298))),
        ("max_block_header_size", text("1100")),
        ("key_deposit", text("x")),
        ("pool_deposit", Json::from_i128(-1)),
        ("decentralisation_param", Json::from_i128(0)),
        ("min_pool_cost", text("170000000")),
        ("price_mem", Json::Number(Number::Other("0.0577".to_string()))),
        ("price_step", text("0.1")),
        ("max_tx_ex_mem", Json::from_i128(14000000)),
        ("max_tx_ex_steps", Json::Array(vec![Json::from_i128(1)])),
        ("collateral_percent", Json::from_i128(150)),
        ("max_collateral_inputs", Json::from_i128(3)),
        ("coins_per_utxo_size", text("4310")),
    ]);
    let params = agent().fetch_protocol_params(Some(&answer)).unwrap();
    assert_eq!(
        params,
        ProtocolParams {
            epoch: 512,
            min_fee_a: 44,
            min_fee_b: 155381,
            max_block_size: 1,
            max_tx_size: 2,
            max_block_header_size: 0,
            key_deposit: 0,
            pool_deposit: 0,
            decentralisation: "0".to_string(),
            min_pool_cost: "170000000".to_string(),
            price_mem: "0.0577".to_string(),
            price_step: "0".to_string(),
            max_tx_ex_mem: "14000000".to_string(),
            max_tx_ex_steps: "[1]".to_string(),
            max_block_ex_mem: "".to_string(),
            max_block_ex_steps: "".to_string(),
            max_val_size: 0,
            collateral_percent: "150".to_string(),
            max_collateral_inputs: 3,
            coins_per_utxo_size: 4310,
            min_fee_ref_script_cost_per_byte: 0,
        }
    );
    assert_eq!(
        agent().fetch_protocol_params(None),
        Err(CardanoError::NotFound("failed to fetch epoch parameters".to_string()))
    );
}

#[test]
fn numbers_and_strings_are_read_alike() {
    let keys = [
        "min_fee_a",
        "min_fee_b",
        "key_deposit",
        "pool_deposit",
        "min_pool_cost",
        "max_tx_ex_mem",
        "max_tx_ex_steps",
        "max_block_ex_mem",
        "max_block_ex_steps",
        "coins_per_utxo_size",
        "min_fee_ref_script_cost_per_byte",
    ];
    for n in [0, 4310, u64::MAX] {
        let numbers = keys.iter().map(|k| (*k, Json::Number(Number::Unsigned(n)))).collect();
        let strings = keys.iter().map(|k| (*k, text(&n.to_string()))).collect();
        let params = agent().fetch_protocol_params(Some(&object(numbers))).unwrap();
        assert_eq!(agent().fetch_protocol_params(Some(&object(strings))).unwrap(), params);
        assert_eq!(params.min_fee_a, n);
        assert_eq!(params.max_tx_ex_mem, n.to_string());
    }
}

#[test]
fn cost_models_follow_their_keys() {
    let model = object(vec![
        ("b", Json::from_i128(2)),
        ("c", text("no number")),
        ("a", Json::from_i128(1)),
        ("A", Json::from_i128(-3)),
        ("b", Json::from_i128(5)),
        ("d", Json::Number(Number::Unsigned(u64::MAX))),
    ]);
    let answer = object(vec![(
        "cost_models",
        object(vec![
            ("PlutusV3", object(vec![("x", Json::from_i128(9))])),
            ("PlutusV2", Json::Array(vec![])),
            ("PlutusV1", model),
        ]),
    )]);
    assert_eq!(
        agent().fetch_cost_models(Some(&answer)),
        Ok(vec![vec![-3, 1, 5], vec![9]])
    );
    assert_eq!(
        agent().fetch_cost_models(Some(&object(vec![("cost_models", Json::Null)]))),
        Ok(vec![])
    );
    assert_eq!(
        agent().fetch_cost_models(Some(&object(vec![]))),
        Err(CardanoError::NotFound("no cost_models in epoch parameters".to_string()))
    );
    assert_eq!(
        agent().fetch_cost_models(None),
        Err(CardanoError::NotFound("failed to fetch epoch parameters".to_string()))
    );
}

use cardano_lightning_client::json::Json;
use cardano_lightning_client::operator::{
    parse_utxo_amounts, submit_error, ScriptUtxo, ScriptUtxoInfo, Submission,
};
use cardano_lightning_client::tx_builder::{Amount, Utxo};
use cardano_lightning_client::{
    CardanoAgent, CardanoConfig, CardanoError, Invoice, OperatorAgent, OperatorConfig, State,
};

const POLICY: &str = "00112233445566778899aabbccddeeff00112233445566778899aabb";
const NAME: &str = "63425443";
const OPERATOR: &str = "addr_test1vpjx2en8dp5k56mvd4hx7ur3wfehgatkwau8j7nm037hulcv0deps";
const OPERATOR_PKH: &str = "6465666768696a6b6c6d6e6f707172737475767778797a7b7c7d7e7f";
const SCRIPT: &str = "addr_test1wqqqzqsrqszsvpcgpy9qkrqdpc83qygjzv2p29shrqv35xcqrypmd";

fn text(s: &str) -> Json {
    Json::Str(s.to_string())
}

fn object(entries: Vec<(&str, Json)>) -> Json {
    Json::Object(entries.into_iter().map(|(k, v)| (k.to_string(), v)).collect())
}

fn config() -> OperatorConfig {
    OperatorConfig {
        skey_hex: "07".repeat(32),
        operator_address: OPERATOR.to_string(),
        operator_pkh: OPERATOR_PKH.to_string(),
        script_cbor: "4e4d01000033222220051200120011".to_string(),
        cbtc_policy: POLICY.to_string(),
        cbtc_name: NAME.to_string(),
    }
}

fn operator() -> OperatorAgent {
    let agent = CardanoAgent::new(CardanoConfig {
        blockfrost_url: "http://node/".to_string(),
        blockfrost_key: "key".to_string(),
        script_address: SCRIPT.to_string(),
    });
    OperatorAgent::new(agent, config())
}

fn amount(unit: &str, quantity: &str) -> Json {
    object(vec![("unit", text(unit)), ("quantity", text(quantity))])
}

fn cbtc(quantity: &str) -> Json {
    amount(&format!("{}{}", POLICY, NAME), quantity)
}

fn pool() -> State {
    State {
        total_liquidity: 1000,
        reserved: 100,
        last_invoice_id: 2,
        invoices: vec![invoice()],
        last_offramp_id: 0,
        offramps: vec![],
    }
}

fn invoice() -> Invoice {
    Invoice {
        invoice_id: 1,
        amount: 100,
        owner: "aabb".to_string(),
        timestamp: 10,
        expires_at: 20,
    }
}

fn raw_wallet() -> Vec<Json> {
    vec![
        object(vec![
            ("tx_hash", text(&"01".repeat(32))),
            ("output_index", Json::from_i128(0)),
            ("amount", Json::Array(vec![amount("lovelace", "50000000"), cbtc("1000000")])),
        ]),
        object(vec![
            ("tx_hash", text(&"03".repeat(32))),
            ("tx_index", Json::from_i128(2)),
            ("amount", Json::Array(vec![amount("lovelace", "30000000")])),
        ]),
    ]
}

#[test]
fn configurations_are_kept() {
    let operator = operator();
    assert_eq!(*operator.config(), config());
    assert_eq!(operator.config().clone(), config());
    assert_eq!(operator.agent().config().script_address, SCRIPT);
}

#[test]
fn amounts_of_an_output() {
    let utxo = object(vec![(
        "amount",
        Json::Array(vec![
            amount("lovelace", "7"),
            cbtc("-5"),
            amount("other", "9"),
            amount("lovelace", "8"),
            object(vec![("quantity", text("3"))]),
        ]),
    )]);
    assert_eq!(parse_utxo_amounts(&utxo, &config()), (8, -5));
    let odd = object(vec![("amount", Json::Array(vec![amount("lovelace", "x"), cbtc("y")]))]);
    assert_eq!(parse_utxo_amounts(&odd, &config()), (0, 0));
    let bare = object(vec![(
        "amount",
        Json::Array(vec![object(vec![("unit", text("lovelace"))])]),
    )]);
    assert_eq!(parse_utxo_amounts(&bare, &config()), (0, 0));
    assert_eq!(parse_utxo_amounts(&Json::Null, &config()), (0, 0));
}

#[test]
fn script_output_is_the_first_with_a_datum() {
    let utxos = vec![
        object(vec![("tx_hash", text("aa"))]),
        object(vec![("inline_datum", Json::Null)]),
        object(vec![
            ("inline_datum", text("d87980")),
            ("tx_hash", text("bb")),
            ("tx_index", Json::from_i128(4294967299)),
            ("amount", Json::Array(vec![amount("lovelace", "70"), cbtc("30")])),
        ]),
    ];
    let found = operator().query_script_utxo(&utxos).unwrap();
    assert_eq!(
        found,
        ScriptUtxo { tx_hash: "bb".to_string(), tx_index: 3, lovelace: 70, cbtc_amount: 30 }
    );
    assert_eq!(
        found.with_state(pool()),
        ScriptUtxoInfo {
            tx_hash: "bb".to_string(),
            tx_index: 3,
            lovelace: 70,
            cbtc_amount: 30,
            state: pool(),
        }
    );
}

#[test]
fn script_output_errors() {
    let datum = || ("inline_datum", text("d87980"));
    assert_eq!(
        operator().query_script_utxo(&vec![]),
        Err(CardanoError::NotFound("no script UTxO with inline datum found".to_string()))
    );
    assert_eq!(
        operator().query_script_utxo(&vec![object(vec![datum()])]),
        Err(CardanoError::Parse("missing tx_hash".to_string()))
    );
    assert_eq!(
        operator().query_script_utxo(&vec![object(vec![datum(), ("tx_hash", text("aa"))])]),
        Err(CardanoError::Parse("missing output_index".to_string()))
    );
    // An index that is no number hides the other one.
    assert_eq!(
        operator().query_script_utxo(&vec![object(vec![
            datum(),
            ("tx_hash", text("aa")),
            ("output_index", text("1")),
            ("tx_index", Json::from_i128(1)),
        ])]),
        Err(CardanoError::Parse("missing output_index".to_string()))
    );
}

#[test]
fn wallet_outputs() {
    let raw = vec![
        raw_wallet().remove(1),
        object(vec![(
            "amount",
            Json::Array(vec![object(vec![]), object(vec![("unit", text("u"))])]),
        )]),
        Json::Null,
    ];
    let lovelace = |quantity: &str| Amount {
        unit: "lovelace".to_string(),
        quantity: quantity.to_string(),
    };
    let utxo = |tx_hash: String, output_index: u32, amount: Vec<Amount>| Utxo {
        tx_hash,
        output_index,
        address: OPERATOR.to_string(),
        amount,
    };
    assert_eq!(
        operator().query_wallet_utxos(Some(&raw)),
        vec![
            utxo("03".repeat(32), 2, vec![lovelace("30000000")]),
            utxo(
                String::new(),
                0,
                vec![
                    lovelace("0"),
                    Amount { unit: "u".to_string(), quantity: "0".to_string() }
                ]
            ),
            utxo(String::new(), 0, vec![]),
        ]
    );
    assert_eq!(operator().query_wallet_utxos(None), vec![]);
}

#[test]
fn submission_carries_the_bytes() {
    assert_eq!(
        operator().submit_tx("84A4ff"),
        Ok(Submission {
            url: "http://node/tx/submit".to_string(),
            body: vec![0x84, 0xa4, 0xff],
        })
    );
    assert_eq!(
        operator().submit_tx("0"),
        Err(CardanoError::Parse("invalid tx hex: Odd number of digits".to_string()))
    );
    assert_eq!(
        submit_error("400 Bad Request", "no"),
        CardanoError::Parse("tx submit failed 400 Bad Request: no".to_string())
    );
}

#[test]
fn operations_are_built() {
    let mut operator = operator();
    let wallet = operator.query_wallet_utxos(Some(&raw_wallet()));
    let script = ScriptUtxo {
        tx_hash: "09".repeat(32),
        tx_index: 1,
        lovelace: 5_000_000,
        cbtc_amount: 1500,
    }
    .with_state(pool());
    let mainnet = operator.deposit(&script, &wallet, 70).unwrap();
    assert_eq!(operator.submit_tx(&mainnet).unwrap().body.len(), mainnet.len() / 2);
    operator.init(vec![vec![1], vec![2], vec![3]]);
    let custom = operator.deposit(&script, &wallet, 70).unwrap();
    assert_ne!(mainnet, custom);
    assert!(operator.withdraw(&script, &wallet, 70).is_ok());
    let (id, _) = operator.create_invoice(&script, &wallet, 70, "ff", 1, 2).unwrap();
    assert_eq!(id, 3);
    assert!(operator.fulfill_invoice(&script, &wallet, &invoice(), OPERATOR).is_ok());
    assert!(operator.cancel_invoice(&script, &wallet, 1).is_ok());
    assert_eq!(
        operator.withdraw(&script, &wallet, 901),
        Err(CardanoError::Parse("withdraw 901 exceeds available 900".to_string()))
    );
}

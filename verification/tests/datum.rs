use cardano_lightning_client::cbor::Cbor;
use cardano_lightning_client::datum::{
    action_to_plutus_json, cbor_hex_to_plutus_json, cbor_to_plutus_json, invoice_to_plutus_json,
    offramp_to_plutus_json, plutus_bytes, plutus_int, plutus_json_to_cbor,
    plutus_json_to_cbor_hex, state_to_plutus_json,
};
use cardano_lightning_client::json::{Json, Number};
use cardano_lightning_client::{Action, CardanoError, Invoice, Offramp, State};

fn number(n: i64) -> Json {
    Json::object1("int", Json::from_i128(n as i128))
}

fn bytes(hex: &str) -> Json {
    Json::object1("bytes", Json::Str(hex.to_string()))
}

fn list(items: Vec<Json>) -> Json {
    Json::object1("list", Json::Array(items))
}

fn constructor(n: i64, fields: Vec<Json>) -> Json {
    Json::object2("constructor", Json::from_i128(n as i128), "fields", Json::Array(fields))
}

fn int_at(j: &Json, key: &str) -> Option<i64> {
    j.get(key).unwrap().as_i64()
}

fn parse_error(text: &str) -> CardanoError {
    CardanoError::Parse(text.to_string())
}

fn sample_state() -> State {
    State {
        total_liquidity: 5_000_000,
        reserved: 100_000,
        last_invoice_id: 1,
        invoices: vec![Invoice {
            invoice_id: 1,
            amount: 100_000,
            owner: "abcdef01".to_string(),
            timestamp: 1700000000000,
            expires_at: 1700003600000,
        }],
        last_offramp_id: 4,
        offramps: vec![Offramp {
            offramp_id: 4,
            amount: 70,
            payment_hash: "aa".to_string(),
            refund_address: "bbcc".to_string(),
            expires_at: -5,
        }],
    }
}

#[test]
fn cbor_hex_empty_state() {
    // CBORTag(121, [1000000, 0, 0, []])
    let json = cbor_hex_to_plutus_json("d8799f1a000f424000009fffff").unwrap();
    assert_eq!(int_at(&json, "constructor"), Some(0));
    let fields = json.get("fields").unwrap().as_array().unwrap();
    assert_eq!(int_at(&fields[0], "int"), Some(1_000_000));
    assert_eq!(int_at(&fields[1], "int"), Some(0));
    assert_eq!(int_at(&fields[2], "int"), Some(0));
    assert!(fields[3].get("list").unwrap().as_array().unwrap().is_empty());
}

#[test]
fn state_roundtrip_plutus_json() {
    let state = State {
        total_liquidity: 5_000_000,
        reserved: 100_000,
        last_invoice_id: 1,
        invoices: vec![Invoice {
            invoice_id: 1,
            amount: 100_000,
            owner: "abcdef01".into(),
            timestamp: 1700000000000,
            expires_at: 1700003600000,
        }],
        last_offramp_id: 0,
        offramps: vec![],
    };
    let json = state_to_plutus_json(&state);
    let parsed = State::try_from(&json).unwrap();
    assert_eq!(parsed.total_liquidity, state.total_liquidity);
    assert_eq!(parsed.reserved, state.reserved);
    assert_eq!(parsed.last_invoice_id, state.last_invoice_id);
    assert_eq!(parsed.invoices.len(), 1);
    assert_eq!(parsed.invoices[0].owner, state.invoices[0].owner);
    assert_eq!(parsed.last_offramp_id, 0);
    assert!(parsed.offramps.is_empty());
}

#[test]
fn action_deposit_json() {
    let action = Action::Deposit { amount: 500_000 };
    let json = action_to_plutus_json(&action);
    assert_eq!(int_at(&json, "constructor"), Some(0));
    assert_eq!(int_at(&json.get("fields").unwrap().as_array().unwrap()[0], "int"), Some(500_000));
}

#[test]
fn plutus_json_cbor_roundtrip() {
    let state = State {
        total_liquidity: 1_000_000,
        reserved: 0,
        last_invoice_id: 0,
        invoices: vec![],
        last_offramp_id: 0,
        offramps: vec![],
    };
    let json = state_to_plutus_json(&state);
    let cbor_hex = plutus_json_to_cbor_hex(&json).unwrap();
    let roundtripped = cbor_hex_to_plutus_json(&cbor_hex).unwrap();
    let parsed = State::try_from(&roundtripped).unwrap();
    assert_eq!(parsed.total_liquidity, 1_000_000);
    assert_eq!(parsed.reserved, 0);
    assert!(parsed.invoices.is_empty());
    assert_eq!(parsed.last_offramp_id, 0);
    assert!(parsed.offramps.is_empty());
}

#[test]
fn state_cbor_is_exact() {
    let state = State {
        total_liquidity: 1_000_000,
        reserved: 0,
        last_invoice_id: 0,
        invoices: vec![],
        last_offramp_id: 0,
        offramps: vec![],
    };
    let hex = plutus_json_to_cbor_hex(&state_to_plutus_json(&state)).unwrap();
    assert_eq!(hex, "d879861a000f42400000800080");
}

#[test]
fn full_state_comes_back_from_cbor() {
    let state = sample_state();
    let hex = plutus_json_to_cbor_hex(&state_to_plutus_json(&state)).unwrap();
    let parsed = State::try_from(&cbor_hex_to_plutus_json(&hex).unwrap()).unwrap();
    assert_eq!(parsed, state);
}

#[test]
fn cbor_comes_back_from_json() {
    for hex in ["20", "42ab01", "83014301020380", "d87e8180", "d86682188580"] {
        let json = cbor_hex_to_plutus_json(hex).unwrap();
        assert_eq!(plutus_json_to_cbor_hex(&json), Ok(hex.to_string()));
    }
}

#[test]
fn uppercase_bytes_come_back_in_lowercase() {
    let hex = plutus_json_to_cbor_hex(&bytes("ABcd09")).unwrap();
    assert_eq!(hex, "43abcd09");
    assert_eq!(cbor_hex_to_plutus_json(&hex), Ok(bytes("abcd09")));
}

#[test]
fn large_constructors_use_the_general_tag() {
    let json = action_to_plutus_json(&Action::CancelOfframp { offramp_id: 9 });
    let hex = plutus_json_to_cbor_hex(&json).unwrap();
    assert_eq!(hex, "d86682078109");
    assert_eq!(cbor_hex_to_plutus_json(&hex), Ok(constructor(7, vec![number(9)])));
}

#[test]
fn general_tag_takes_arrays_and_items_as_fields() {
    assert_eq!(
        cbor_hex_to_plutus_json("d866830782010205"),
        Ok(constructor(7, vec![number(1), number(2), number(5)]))
    );
}

#[test]
fn integers_keep_their_value() {
    let int = |n: Number| Json::object1("int", Json::Number(n));
    assert_eq!(cbor_hex_to_plutus_json("20"), Ok(int(Number::Negative(-1))));
    assert_eq!(cbor_hex_to_plutus_json("1b7fffffffffffffff"), Ok(number(i64::MAX)));
    assert_eq!(cbor_hex_to_plutus_json("3b7fffffffffffffff"), Ok(number(i64::MIN)));
    assert_eq!(
        cbor_hex_to_plutus_json("1b8000000000000000"),
        Ok(int(Number::Unsigned(9223372036854775808)))
    );
    assert_eq!(
        cbor_hex_to_plutus_json("1bffffffffffffffff"),
        Ok(int(Number::Unsigned(u64::MAX)))
    );
    assert_eq!(
        cbor_hex_to_plutus_json("3b8000000000000000"),
        Ok(int(Number::Other("-9223372036854775809".to_string())))
    );
    assert_eq!(
        cbor_hex_to_plutus_json("3bffffffffffffffff"),
        Ok(int(Number::Other("-18446744073709551616".to_string())))
    );
}

#[test]
fn integers_beyond_i64_are_not_taken_for_others() {
    for (hex, text) in [
        ("1b8000000000000000", "{\"int\":9223372036854775808}"),
        ("3b8000000000000000", "{\"int\":-9223372036854775809}"),
    ] {
        let json = cbor_hex_to_plutus_json(hex).unwrap();
        assert_eq!(
            plutus_int(&json),
            Err(parse_error(&format!("expected {{\"int\": ...}}, got {}", text)))
        );
        assert_eq!(
            plutus_json_to_cbor_hex(&json),
            Err(parse_error(&format!("unsupported Plutus JSON value: {}", text)))
        );
    }
}

#[test]
fn text_counts_as_its_bytes() {
    assert_eq!(cbor_hex_to_plutus_json("626869"), Ok(bytes("6869")));
    assert_eq!(cbor_to_plutus_json(&Cbor::Text("é".to_string())), Ok(bytes("c3a9")));
}

#[test]
fn cbor_errors() {
    assert_eq!(
        cbor_hex_to_plutus_json("zz"),
        Err(parse_error("invalid hex in inline_datum: Invalid character 'z' at position 0"))
    );
    assert_eq!(
        cbor_hex_to_plutus_json("123"),
        Err(parse_error("invalid hex in inline_datum: Odd number of digits"))
    );
    assert_eq!(
        cbor_hex_to_plutus_json("ff").unwrap_err().message(),
        "parse error: CBOR decode failed: Semantic(None, \"invalid type: break, expected non-break\")"
    );
    assert!(cbor_hex_to_plutus_json("")
        .unwrap_err()
        .message()
        .starts_with("parse error: CBOR decode failed: Io("));
    assert_eq!(cbor_hex_to_plutus_json("c500"), Err(parse_error("unexpected CBOR tag: 5")));
    assert_eq!(
        cbor_hex_to_plutus_json("d87900"),
        Err(parse_error("expected array inside constructor tag, got Integer(Integer(0))"))
    );
    assert_eq!(
        cbor_hex_to_plutus_json("d86680"),
        Err(parse_error("invalid Tag 102 encoding: Array([])"))
    );
    assert_eq!(
        cbor_hex_to_plutus_json("d8664101"),
        Err(parse_error("invalid Tag 102 encoding: Bytes([1])"))
    );
    assert_eq!(
        cbor_hex_to_plutus_json("f5"),
        Err(parse_error("unsupported CBOR value type: Bool(true)"))
    );
    assert_eq!(
        cbor_hex_to_plutus_json("f6"),
        Err(parse_error("unsupported CBOR value type: Null"))
    );
    assert_eq!(
        cbor_hex_to_plutus_json("a10102"),
        Err(parse_error(
            "unsupported CBOR value type: Map([(Integer(Integer(1)), Integer(Integer(2)))])"
        ))
    );
    assert_eq!(
        cbor_hex_to_plutus_json("f93e00"),
        Err(parse_error("unsupported CBOR value type: Float(1.5)"))
    );
    // The first error counts.
    assert_eq!(
        cbor_hex_to_plutus_json("8300f5f6"),
        Err(parse_error("unsupported CBOR value type: Bool(true)"))
    );
    assert_eq!(
        cbor_hex_to_plutus_json("d866830781f6f5"),
        Err(parse_error("unsupported CBOR value type: Null"))
    );
}

#[test]
fn json_errors() {
    assert_eq!(
        plutus_json_to_cbor_hex(&bytes("xy")),
        Err(parse_error("invalid hex in bytes field: Invalid character 'x' at position 0"))
    );
    let bare = Json::object1("constructor", Json::from_i128(0));
    assert_eq!(plutus_json_to_cbor_hex(&bare), Err(parse_error("constructor without fields")));
    let odd = Json::object2("b", Json::Null, "a", Json::Array(vec![Json::Bool(true)]));
    assert_eq!(
        plutus_json_to_cbor_hex(&odd),
        Err(parse_error("unsupported Plutus JSON value: {\"a\":[true],\"b\":null}"))
    );
    let float = Json::object1("int", Json::Number(Number::Other("1.5".to_string())));
    assert_eq!(
        plutus_json_to_cbor_hex(&float),
        Err(parse_error("unsupported Plutus JSON value: {\"int\":1.5}"))
    );
    let nested = list(vec![number(1), bytes("0"), Json::Null]);
    assert_eq!(
        plutus_json_to_cbor(&nested),
        Err(parse_error("invalid hex in bytes field: Odd number of digits"))
    );
}

#[test]
fn constructors_keep_their_number() {
    let huge = Json::object2(
        "constructor",
        Json::Number(Number::Unsigned(u64::MAX)),
        "fields",
        Json::Array(vec![]),
    );
    let hex = plutus_json_to_cbor_hex(&huge).unwrap();
    assert_eq!(hex, "d866821bffffffffffffffff80");
    assert_eq!(cbor_hex_to_plutus_json(&hex), Ok(huge));
    assert_eq!(cbor_hex_to_plutus_json("d866822080"), Ok(constructor(-1, vec![])));
    let lowest = Json::object2(
        "constructor",
        Json::Number(Number::Other("-18446744073709551616".to_string())),
        "fields",
        Json::Array(vec![]),
    );
    assert_eq!(cbor_hex_to_plutus_json("d866823bffffffffffffffff80"), Ok(lowest));
}

#[test]
fn json_members_are_read_in_order_of_kind() {
    let both = Json::object2("bytes", Json::Str("ff".to_string()), "int", Json::from_i128(3));
    assert_eq!(plutus_json_to_cbor(&both), Ok(Cbor::Integer(3)));
    let later = Json::Object(vec![
        ("int".to_string(), Json::from_i128(1)),
        ("int".to_string(), Json::from_i128(2)),
    ]);
    assert_eq!(plutus_json_to_cbor(&later), Ok(Cbor::Integer(2)));
}

#[test]
fn plutus_fields() {
    assert_eq!(plutus_int(&number(42)), Ok(42));
    assert_eq!(plutus_bytes(&bytes("abcd")), Ok("abcd".to_string()));
    assert_eq!(
        plutus_int(&bytes("ab")),
        Err(parse_error("expected {\"int\": ...}, got {\"bytes\":\"ab\"}"))
    );
    assert_eq!(
        plutus_bytes(&number(-1)),
        Err(parse_error("expected {\"bytes\": ...}, got {\"int\":-1}"))
    );
    let large = Json::object1("int", Json::Number(Number::Unsigned(9223372036854775808)));
    assert_eq!(
        plutus_int(&large),
        Err(parse_error("expected {\"int\": ...}, got {\"int\":9223372036854775808}"))
    );
}

#[test]
fn actions_have_their_own_constructors() {
    let invoice = sample_state().invoices[0].clone();
    let offramp = sample_state().offramps[0].clone();
    let actions = vec![
        Action::Deposit { amount: 1 },
        Action::Withdraw { amount: 1 },
        Action::CreateInvoice {
            amount: 1,
            owner: "aa".to_string(),
            timestamp: 2,
            expires_at: 3,
        },
        Action::FulfillInvoice { invoice: invoice.clone() },
        Action::CancelInvoice { invoice_id: 1 },
        Action::CreateOfframp {
            amount: 1,
            payment_hash: "aa".to_string(),
            refund_address: "bb".to_string(),
            expires_at: 3,
        },
        Action::FulfillOfframp { offramp: offramp.clone() },
        Action::CancelOfframp { offramp_id: 1 },
    ];
    for (i, action) in actions.iter().enumerate() {
        let json = action_to_plutus_json(action);
        assert_eq!(int_at(&json, "constructor"), Some(i as i64));
        assert_eq!(action.clone(), *action);
    }
    assert_eq!(
        action_to_plutus_json(&actions[2]),
        constructor(2, vec![number(1), bytes("aa"), number(2), number(3)])
    );
    assert_eq!(
        action_to_plutus_json(&actions[3]),
        constructor(3, vec![invoice_to_plutus_json(&invoice)])
    );
    assert_eq!(
        action_to_plutus_json(&actions[5]),
        constructor(5, vec![number(1), bytes("aa"), bytes("bb"), number(3)])
    );
    assert_eq!(
        action_to_plutus_json(&actions[6]),
        constructor(6, vec![offramp_to_plutus_json(&offramp)])
    );
}

#[test]
fn deep_nesting_is_written_but_not_read() {
    let mut json = number(1);
    for _ in 0..256 {
        json = list(vec![json]);
    }
    let hex = plutus_json_to_cbor_hex(&json).unwrap();
    assert_eq!(cbor_hex_to_plutus_json(&hex), Ok(json));
    let mut json = number(1);
    for _ in 0..257 {
        json = list(vec![json]);
    }
    let hex = plutus_json_to_cbor_hex(&json).unwrap();
    assert_eq!(
        cbor_hex_to_plutus_json(&hex),
        Err(parse_error("CBOR decode failed: RecursionLimitExceeded"))
    );
    let mut json = number(1);
    for _ in 0..128 {
        json = constructor(3, vec![json]);
    }
    let hex = plutus_json_to_cbor_hex(&json).unwrap();
    assert_eq!(cbor_hex_to_plutus_json(&hex), Ok(json));
}

use cardano_lightning_client::json::Json;
use cardano_lightning_client::{CardanoError, Invoice, Offramp, State};

fn number(n: i64) -> Json {
    Json::object1("int", Json::from_i128(n as i128))
}

fn bytes(hex: &str) -> Json {
    Json::object1("bytes", Json::Str(hex.to_string()))
}

fn list(items: Vec<Json>) -> Json {
    Json::object1("list", Json::Array(items))
}

fn constructor(fields: Vec<Json>) -> Json {
    Json::object2("constructor", Json::from_i128(0), "fields", Json::Array(fields))
}

fn parse_error(text: &str) -> CardanoError {
    CardanoError::Parse(text.to_string())
}

#[test]
fn parse_empty_state() {
    let datum = constructor(vec![number(1_000_000), number(0), number(0), list(vec![])]);
    let state = State::try_from(&datum).unwrap();
    assert_eq!(state.total_liquidity, 1_000_000);
    assert_eq!(state.reserved, 0);
    assert_eq!(state.last_invoice_id, 0);
    assert_eq!(state.available(), 1_000_000);
    assert!(state.invoices.is_empty());
}

#[test]
fn parse_state_with_invoice() {
    let datum = constructor(vec![
        number(5_000_000),
        number(100_000),
        number(1),
        list(vec![constructor(vec![
            number(1),
            number(100_000),
            bytes("abcdef0123456789"),
            number(1700000000000_i64),
            number(1700003600000_i64),
        ])]),
    ]);
    let state = State::try_from(&datum).unwrap();
    assert_eq!(state.total_liquidity, 5_000_000);
    assert_eq!(state.reserved, 100_000);
    assert_eq!(state.available(), 4_900_000);
    assert_eq!(state.invoices.len(), 1);
    assert_eq!(state.invoices[0].owner, "abcdef0123456789");
}

#[test]
fn parse_state_with_offramps() {
    let datum = constructor(vec![
        number(1),
        number(2),
        number(3),
        list(vec![]),
        number(7),
        list(vec![constructor(vec![number(7), number(50), bytes("aa"), bytes("bb"), number(99)])]),
    ]);
    let state = State::try_from(&datum).unwrap();
    assert_eq!(state.last_offramp_id, 7);
    assert_eq!(
        state.offramps,
        vec![Offramp {
            offramp_id: 7,
            amount: 50,
            payment_hash: "aa".to_string(),
            refund_address: "bb".to_string(),
            expires_at: 99,
        }]
    );
}

#[test]
fn state_errors() {
    assert_eq!(State::try_from(&number(1)), Err(parse_error("State: missing 'fields' array")));
    assert_eq!(
        State::try_from(&constructor(vec![number(1), number(2), number(3)])),
        Err(parse_error("State: expected 4 fields, got 3"))
    );
    assert_eq!(
        State::try_from(&constructor(vec![number(1), number(2), number(3), number(4)])),
        Err(parse_error("State: field 3 should be a list of invoices"))
    );
    assert_eq!(
        State::try_from(&constructor(vec![
            number(1),
            number(2),
            number(3),
            list(vec![]),
            number(4),
            number(5)
        ])),
        Err(parse_error("State: field 5 should be a list of offramps"))
    );
    // A number of the pool is looked at before its invoices.
    assert_eq!(
        State::try_from(&constructor(vec![number(1), bytes("aa"), number(3), list(vec![number(1)])])),
        Err(parse_error("expected {\"int\": ...}, got {\"bytes\":\"aa\"}"))
    );
    assert_eq!(
        State::try_from(&constructor(vec![number(1), number(2), number(3), list(vec![number(1)])])),
        Err(parse_error("Invoice: missing 'fields' array"))
    );
    assert_eq!(
        State::try_from(&constructor(vec![
            number(1),
            number(2),
            number(3),
            list(vec![]),
            number(4),
            list(vec![constructor(vec![])])
        ])),
        Err(parse_error("Offramp: expected 5 fields, got 0"))
    );
}

#[test]
fn invoice_errors() {
    assert_eq!(
        Invoice::try_from(&constructor(vec![number(1)])),
        Err(parse_error("Invoice: expected 5 fields, got 1"))
    );
    assert_eq!(
        Invoice::try_from(&constructor(vec![number(1), number(2), number(3), number(4), number(5)])),
        Err(parse_error("expected {\"bytes\": ...}, got {\"int\":3}"))
    );
    assert_eq!(
        Offramp::try_from(&constructor(vec![number(1), number(2), bytes(""), number(4), number(5)])),
        Err(parse_error("expected {\"bytes\": ...}, got {\"int\":4}"))
    );
    assert_eq!(
        Offramp::try_from(&Json::Null),
        Err(parse_error("Offramp: missing 'fields' array"))
    );
}

#[test]
fn texts() {
    let invoice = Invoice {
        invoice_id: 3,
        amount: -20,
        owner: "ab".to_string(),
        timestamp: 0,
        expires_at: i64::MIN,
    };
    assert_eq!(
        invoice.to_text(),
        "Invoice #3: amount=-20, owner=ab, ts=0, expires=-9223372036854775808"
    );
    let state = State {
        total_liquidity: 1000,
        reserved: 10,
        last_invoice_id: 3,
        invoices: vec![invoice.clone(), invoice],
        last_offramp_id: 0,
        offramps: vec![],
    };
    assert_eq!(
        state.to_text(),
        "Pool State:\n  total_liquidity: 1000\n  reserved:        10\n  available:        990\n  \
         last_invoice_id: 3\n  invoices:        2 active\n    - Invoice #3: amount=-20, owner=ab, \
         ts=0, expires=-9223372036854775808\n    - Invoice #3: amount=-20, owner=ab, ts=0, \
         expires=-9223372036854775808\n"
    );
}

#[test]
fn error_messages() {
    assert_eq!(CardanoError::Network("down".to_string()).message(), "network error: down");
    assert_eq!(parse_error("odd").message(), "parse error: odd");
    assert_eq!(CardanoError::NotFound("it".to_string()).message(), "not found: it");
}

use cardano_lightning_client::contract::{
    build_cancel_invoice_tx, build_cancel_offramp_tx, build_contract_tx, build_create_invoice_tx,
    build_create_offramp_tx, build_deposit_tx, build_fulfill_invoice_tx, build_fulfill_offramp_tx,
    build_outcome, build_withdraw_tx, can_be_collateral, datum_cbor, find_collateral, redeemer_for,
    signing_outcome, TxContext,
};
use cardano_lightning_client::datum::cbor_hex_to_plutus_json;
use cardano_lightning_client::guard::{action_is_hex, is_buildable, state_is_hex};
use cardano_lightning_client::steps::{
    create_invoice_step, deposit_step, fulfill_invoice_step,
};
use cardano_lightning_client::tx_builder::{Amount, Network, ProtocolParams, Utxo};
use cardano_lightning_client::{Action, CardanoError, Invoice, Offramp, State};

const POLICY: &str = "00112233445566778899aabbccddeeff00112233445566778899aabb";
const NAME: &str = "63425443";
const OPERATOR: &str = "addr_test1vpjx2en8dp5k56mvd4hx7ur3wfehgatkwau8j7nm037hulcv0deps";
const OPERATOR_PKH: &str = "6465666768696a6b6c6d6e6f707172737475767778797a7b7c7d7e7f";
const OWNER: &str = "addr_test1vq7r603lgpq5ys6yg4rywjzfff95cn2wfag9z5jn2324v4ctdpx4f";
const SCRIPT: &str = "addr_test1wqqqzqsrqszsvpcgpy9qkrqdpc83qygjzv2p29shrqv35xcqrypmd";

fn hash(n: u8) -> String {
    format!("{:02x}", n).repeat(32)
}

fn amount(unit: &str, quantity: &str) -> Amount {
    Amount { unit: unit.to_string(), quantity: quantity.to_string() }
}

fn utxo(n: u8, amounts: Vec<Amount>) -> Utxo {
    Utxo {
        tx_hash: hash(n),
        output_index: 0,
        address: OPERATOR.to_string(),
        amount: amounts,
    }
}

fn wallet() -> Vec<Utxo> {
    let unit = format!("{}{}", POLICY, NAME);
    vec![
        utxo(1, vec![amount("lovelace", "50000000"), amount(&unit, "1000000")]),
        utxo(2, vec![amount("lovelace", "4999999")]),
        utxo(3, vec![amount("lovelace", "30000000")]),
        utxo(4, vec![amount("lovelace", "40000000")]),
    ]
}

fn invoice() -> Invoice {
    Invoice {
        invoice_id: 1,
        amount: 100,
        owner: "aabb".to_string(),
        timestamp: 10,
        expires_at: 20,
    }
}

fn offramp() -> Offramp {
    Offramp {
        offramp_id: 5,
        amount: 40,
        payment_hash: "cc".to_string(),
        refund_address: "dd".to_string(),
        expires_at: 20,
    }
}

fn pool() -> State {
    State {
        total_liquidity: 1000,
        reserved: 100,
        last_invoice_id: 2,
        invoices: vec![invoice()],
        last_offramp_id: 5,
        offramps: vec![offramp()],
    }
}

fn context<'a>(wallet: &'a [Utxo], key: &'a str, script_hash: &'a str) -> TxContext<'a> {
    TxContext {
        script_tx_hash: script_hash,
        script_tx_index: 1,
        script_lovelace: 5_000_000,
        script_cbtc: 1500,
        script_address: SCRIPT,
        script_cbor: "4e4d01000033222220051200120011",
        operator_address: OPERATOR,
        operator_pkh: OPERATOR_PKH,
        operator_skey: key,
        cbtc_policy: POLICY,
        cbtc_name: NAME,
        wallet_utxos: wallet,
        network: Network::Preprod,
        protocol_params: None,
    }
}

fn key() -> String {
    format!("5820{}", "07".repeat(32))
}

#[test]
fn unit_of_cbtc() {
    let (wallet, key, script_hash) = (wallet(), key(), hash(9));
    let ctx = context(&wallet, &key, &script_hash);
    assert_eq!(ctx.cbtc_unit(), format!("{}{}", POLICY, NAME));
}

#[test]
fn redeemer_is_exact() {
    let redeemer = redeemer_for(&Action::Deposit { amount: 500_000 });
    assert_eq!(redeemer.data, "d879811a0007a120");
    assert_eq!(redeemer.mem, 800_000);
    assert_eq!(redeemer.steps, 400_000_000);
}

#[test]
fn datum_reads_back() {
    let hex = datum_cbor(&pool());
    assert_eq!(State::try_from(&cbor_hex_to_plutus_json(&hex).unwrap()), Ok(pool()));
    let mut upper = pool();
    upper.invoices[0].owner = "AABB".to_string();
    let hex = datum_cbor(&upper);
    assert_eq!(State::try_from(&cbor_hex_to_plutus_json(&hex).unwrap()), Ok(pool()));
}

#[test]
fn collateral_is_the_first_with_five_ada_and_nothing_else() {
    let wallet = wallet();
    assert_eq!(find_collateral(&wallet), Some(&wallet[2]));
    assert_eq!(find_collateral(&wallet[..2]), None);
    assert!(!can_be_collateral(&utxo(5, vec![])));
    assert!(!can_be_collateral(&utxo(5, vec![amount("lovelace", "five")])));
    assert!(can_be_collateral(&utxo(5, vec![amount("lovelace", "5000000")])));
    assert!(!can_be_collateral(&utxo(
        5,
        vec![amount("lovelace", "3000000"), amount("lovelace", "3000000")]
    )));
    assert!(can_be_collateral(&utxo(
        5,
        vec![amount("lovelace", "x"), amount("lovelace", "6000000")]
    )));
}

#[test]
fn without_collateral_nothing_is_built() {
    let (wallet, key, script_hash) = (wallet(), key(), hash(9));
    let ctx = context(&wallet[..2], &key, &script_hash);
    assert_eq!(
        build_deposit_tx(&ctx, &pool(), 70),
        Err(CardanoError::Parse(
            "no ADA-only wallet UTxO with >= 5 ADA for collateral".to_string()
        ))
    );
}

#[test]
fn refused_steps_are_not_built() {
    let (wallet, key, script_hash) = (wallet(), key(), hash(9));
    let ctx = context(&wallet, &key, &script_hash);
    assert_eq!(
        build_deposit_tx(&ctx, &pool(), 0),
        Err(CardanoError::Parse("deposit amount must be positive".to_string()))
    );
    assert_eq!(
        build_withdraw_tx(&ctx, &pool(), 901),
        Err(CardanoError::Parse("withdraw 901 exceeds available 900".to_string()))
    );
    assert_eq!(
        build_create_invoice_tx(&ctx, &pool(), 901, "aa", 1, 2),
        Err(CardanoError::Parse("invoice amount 901 exceeds available 900".to_string()))
    );
    assert_eq!(
        build_cancel_invoice_tx(&ctx, &pool(), 2),
        Err(CardanoError::NotFound("invoice 2 not found".to_string()))
    );
    assert_eq!(
        build_create_offramp_tx(&ctx, &pool(), 0, "aa", "bb", 1),
        Err(CardanoError::Parse("offramp amount must be positive".to_string()))
    );
    assert_eq!(
        build_cancel_offramp_tx(&ctx, &pool(), 2),
        Err(CardanoError::NotFound("offramp 2 not found".to_string()))
    );
}

#[test]
fn deposit_is_built_and_signed() {
    let (wallet, key, script_hash) = (wallet(), key(), hash(9));
    let ctx = context(&wallet, &key, &script_hash);
    let hex = build_deposit_tx(&ctx, &pool(), 70).unwrap();
    let step = deposit_step(&pool(), 1500, 70).unwrap();
    assert!(hex.contains(&datum_cbor(&step.state)));
    assert!(hex.contains(&redeemer_for(&step.action).data));
    assert!(hex.contains(OPERATOR_PKH));
    // It spends the script output and the wallet output that holds cBTC.
    assert!(hex.contains(&format!("{}01", script_hash)));
    assert!(hex.contains(&hash(1)));
    // It runs the script, and puts up five ADA of the third wallet output.
    assert!(hex.contains("4d01000033222220051200120011"));
    assert!(hex.contains(&hash(3)));
    assert!(hex.contains("111a004c4b40"));
    // 1570 cBTC are left at the script.
    assert!(hex.contains("4463425443190622"));
    assert_eq!(build_contract_tx(&ctx, &step), Ok(hex));
}

#[test]
fn two_transactions_for_a_step_agree() {
    let (mut wallet, key, script_hash) = (wallet(), key(), hash(9));
    wallet.push(utxo(6, vec![amount("lovelace", "2000000")]));
    let ctx = context(&wallet, &key, &script_hash);
    let step = deposit_step(&pool(), 1500, 70).unwrap();
    for _ in 0..3 {
        let hex = build_contract_tx(&ctx, &step).unwrap();
        for part in [
            format!("{}01", script_hash),
            redeemer_for(&step.action).data,
            datum_cbor(&step.state),
            hash(3),
            OPERATOR_PKH.to_string(),
        ] {
            assert!(hex.contains(&part));
        }
    }
    let poor = context(&wallet[..2], &key, &script_hash);
    assert_eq!(build_contract_tx(&poor, &step), build_contract_tx(&poor, &step));
}

#[test]
fn cancelling_a_new_invoice_carries_the_pool_from_before() {
    let (wallet, key, script_hash) = (wallet(), key(), hash(9));
    let ctx = context(&wallet, &key, &script_hash);
    let created = create_invoice_step(&pool(), ctx.script_cbtc, 50, "ef", 1, 2).unwrap();
    let hex = build_create_invoice_tx(&ctx, &pool(), 50, "ef", 1, 2).unwrap();
    assert!(hex.contains(&datum_cbor(&created.state)));
    let later = TxContext { script_cbtc: created.script_cbtc, ..ctx };
    let hex = build_cancel_invoice_tx(&later, &created.state, 3).unwrap();
    assert!(hex.contains(&datum_cbor(&State { last_invoice_id: 3, ..pool() })));
    // 1500 cBTC are still at the script.
    assert!(hex.contains("44634254431905dc"));
}

#[test]
fn every_operation_can_be_built() {
    let (wallet, key, script_hash) = (wallet(), key(), hash(9));
    let ctx = context(&wallet, &key, &script_hash);
    assert!(build_withdraw_tx(&ctx, &pool(), 900).is_ok());
    assert!(build_create_invoice_tx(&ctx, &pool(), 50, "ef", 1, 2).is_ok());
    assert!(build_cancel_invoice_tx(&ctx, &pool(), 1).is_ok());
    assert_eq!(build_create_offramp_tx(&ctx, &pool(), 9, "0a", "0b", 30).unwrap().0, 6);
    assert!(build_fulfill_offramp_tx(&ctx, &pool(), &offramp()).is_ok());
    assert!(build_cancel_offramp_tx(&ctx, &pool(), 5).is_ok());
    let paid = build_fulfill_invoice_tx(&ctx, &pool(), &invoice(), OWNER).unwrap();
    // The owner's key hash stands in the address of an output.
    assert!(paid.contains("603c3d3e3f404142434445464748494a4b4c4d4e4f5051525354555657"));
}

#[test]
fn owners_of_the_byron_era_are_paid() {
    let (wallet, key, script_hash) = (wallet(), key(), hash(9));
    let ctx = context(&wallet, &key, &script_hash);
    let owner = "Ae2tdPwUPEYvonZpzjqm9roCdj4Aipuz6AAer9TVPHMWhr6qojNk1w4qoxj";
    let bytes = "82d818582183581c000102030405060708090a0b0c0d0e0f101112131415161718191a1ba0001a9e64ec08";
    let step = fulfill_invoice_step(&pool(), 1500, &invoice(), owner);
    assert!(is_buildable(&ctx, &step));
    assert!(build_fulfill_invoice_tx(&ctx, &pool(), &invoice(), owner).unwrap().contains(bytes));
    let owner = "addr1stvpskpgsdvpcqqpqgpsgpgxquyqjzstpsxsurcszyfpx9q4zct3sxg6rwssy3g6g9cvk9cqr2ya6jd40amhr9";
    let step = fulfill_invoice_step(&pool(), 1500, &invoice(), owner);
    assert!(is_buildable(&ctx, &step));
    assert!(build_fulfill_invoice_tx(&ctx, &pool(), &invoice(), owner).is_ok());
}

#[test]
fn cost_models_reach_down_to_the_least_but_one() {
    let (wallet, key, script_hash) = (wallet(), key(), hash(9));
    let ctx = TxContext {
        network: Network::Custom(vec![vec![], vec![], vec![i64::MIN + 1, i64::MAX]]),
        ..context(&wallet, &key, &script_hash)
    };
    assert!(build_deposit_tx(&ctx, &pool(), 70).is_ok());
}

#[test]
fn long_lengths_of_scripts_are_read() {
    let (wallet, key, script_hash) = (wallet(), key(), hash(9));
    let ctx = TxContext {
        script_cbor: "5b000000000000000e4d01000033222220051200120011",
        ..context(&wallet, &key, &script_hash)
    };
    assert!(is_buildable(&ctx, &deposit_step(&pool(), 1500, 70).unwrap()));
    let hex = build_deposit_tx(&ctx, &pool(), 70).unwrap();
    assert!(hex.contains("4d01000033222220051200120011"));
}

#[test]
fn fractions_are_finite() {
    let (wallet, key, script_hash) = (wallet(), key(), hash(9));
    for price in ["1e400", "no number", "0.0577"] {
        let protocol_params =
            Some(ProtocolParams { price_mem: price.to_string(), ..params(4310) });
        let ctx = TxContext { protocol_params, ..context(&wallet, &key, &script_hash) };
        assert!(build_deposit_tx(&ctx, &pool(), 70).is_ok());
    }
}

fn params(coins_per_utxo_size: u64) -> ProtocolParams {
    ProtocolParams {
        epoch: 0,
        min_fee_a: 44,
        min_fee_b: 155381,
        max_block_size: 98304,
        max_tx_size: 16384,
        max_block_header_size: 1100,
        key_deposit: 2000000,
        pool_deposit: 500000000,
        decentralisation: "0".to_string(),
        min_pool_cost: "340000000".to_string(),
        price_mem: "0.0577".to_string(),
        price_step: "0.0000721".to_string(),
        max_tx_ex_mem: "16000000".to_string(),
        max_tx_ex_steps: "10000000000".to_string(),
        max_block_ex_mem: "80000000".to_string(),
        max_block_ex_steps: "40000000000".to_string(),
        max_val_size: 5000,
        collateral_percent: "150".to_string(),
        max_collateral_inputs: 3,
        coins_per_utxo_size,
        min_fee_ref_script_cost_per_byte: 15,
    }
}

#[test]
fn network_reaches_the_transaction() {
    let (wallet, key, script_hash) = (wallet(), key(), hash(9));
    let ctx = context(&wallet, &key, &script_hash);
    let preprod = build_deposit_tx(&ctx, &pool(), 70).unwrap();
    let ctx = TxContext {
        network: Network::Custom(vec![vec![1], vec![2], vec![3]]),
        ..context(&wallet, &key, &script_hash)
    };
    assert_eq!(ctx.network.clone(), ctx.network);
    assert_ne!(build_deposit_tx(&ctx, &pool(), 70).unwrap(), preprod);
}

#[test]
fn parameters_reach_the_transaction() {
    let (wallet, key, script_hash) = (wallet(), key(), hash(9));
    let build = |protocol_params: Option<ProtocolParams>| {
        let ctx = TxContext {
            script_lovelace: 0,
            protocol_params,
            ..context(&wallet, &key, &script_hash)
        };
        build_deposit_tx(&ctx, &pool(), 70).unwrap()
    };
    // Without parameters of its own, the SDK takes those of the main network.
    assert_eq!(build(None), build(Some(params(4310))));
    assert_ne!(build(None), build(Some(params(8620))));
}

#[test]
fn sdk_failures_are_reported() {
    let (wallet, key, script_hash) = (wallet(), key(), hash(9));
    let ctx = context(&wallet, &key, "not a hash");
    let error = build_deposit_tx(&ctx, &pool(), 70).unwrap_err();
    assert!(error.message().starts_with("parse error: tx build failed: "));
    let ctx = context(&wallet, "not a key", &script_hash);
    let error = build_deposit_tx(&ctx, &pool(), 70).unwrap_err();
    assert!(error.message().starts_with("parse error: tx signing failed: "));
    let ctx = TxContext { operator_address: "nowhere", ..context(&wallet, &key, &script_hash) };
    let error = build_deposit_tx(&ctx, &pool(), 70).unwrap_err();
    assert!(error.message().starts_with("parse error: tx build failed: "));
    // More cBTC than the wallet holds.
    let ctx = context(&wallet, &key, &script_hash);
    let error = build_deposit_tx(&ctx, &pool(), 1_000_001).unwrap_err();
    assert!(error.message().starts_with("parse error: tx build failed: "));
}

#[test]
fn sdk_answers_are_passed_on() {
    assert_eq!(build_outcome(Ok(())), Ok(()));
    assert_eq!(
        build_outcome(Err("no".to_string())),
        Err(CardanoError::Parse("tx build failed: no".to_string()))
    );
    assert_eq!(signing_outcome(Ok("84a4".to_string())), Ok("84a4".to_string()));
    assert_eq!(
        signing_outcome(Err("no".to_string())),
        Err(CardanoError::Parse("tx signing failed: no".to_string()))
    );
}

#[test]
fn steps_of_a_real_pool_are_buildable() {
    let (wallet, key, script_hash) = (wallet(), key(), hash(9));
    let step = deposit_step(&pool(), 1500, 70).unwrap();
    let ctx = || context(&wallet, &key, &script_hash);
    assert!(ctx().is_sensible());
    assert!(is_buildable(&ctx(), &step));
    assert!(!is_buildable(&TxContext { cbtc_policy: "", ..ctx() }, &step));
    assert!(!is_buildable(&TxContext { cbtc_policy: "love", cbtc_name: "lace", ..ctx() }, &step));
    assert!(!is_buildable(&TxContext { operator_skey: "abc", ..ctx() }, &step));
    assert!(!is_buildable(&TxContext { script_cbtc: -1, ..ctx() }, &step));
    assert!(!is_buildable(&TxContext { script_lovelace: u64::MAX, ..ctx() }, &step));
    assert!(is_buildable(&TxContext { script_lovelace: 0, ..ctx() }, &step));
    // A script output without lovelace gets what the ledger asks for.
    for (coins, fits) in [(1_000_001, true), (u64::MAX, false)] {
        let protocol_params = Some(params(coins));
        let ctx = TxContext { script_lovelace: 0, protocol_params, ..ctx() };
        assert_eq!(is_buildable(&ctx, &step), fits);
    }
    // The least of all numbers cannot be negated.
    for (model, fits) in [(2, false), (1, true)] {
        let mut models = vec![vec![-1, 0, i64::MAX, i64::MIN + 1]; 3];
        models[model][1] = i64::MIN;
        let network = Network::Custom(models);
        assert_eq!(is_buildable(&TxContext { network, ..ctx() }, &step), fits);
    }
    assert!(is_buildable(&TxContext { network: Network::Custom(vec![]), ..ctx() }, &step));
    let odd = vec![utxo(5, vec![amount("lovelace", "many")])];
    assert!(!is_buildable(&TxContext { wallet_utxos: &odd, ..ctx() }, &step));
    let short = vec![utxo(5, vec![amount("short", "1")])];
    assert!(!is_buildable(&TxContext { wallet_utxos: &short, ..ctx() }, &step));
    // An address without a payload.
    assert!(!is_buildable(&TxContext { script_address: "a12uel5l", ..ctx() }, &step));
    assert!(!is_buildable(&TxContext { operator_address: "a12uel5l", ..ctx() }, &step));
    let mut empty = vec![utxo(5, vec![amount("lovelace", "1")])];
    assert!(is_buildable(&TxContext { wallet_utxos: &empty, ..ctx() }, &step));
    empty[0].address = "a12uel5l".to_string();
    assert!(!is_buildable(&TxContext { wallet_utxos: &empty, ..ctx() }, &step));
    let mut lost = deposit_step(&pool(), 1500, 70).unwrap();
    lost.payout = Some(("a12uel5l".to_string(), 1));
    assert!(!is_buildable(&ctx(), &lost));
    lost.payout = Some((OWNER.to_string(), 1));
    assert!(is_buildable(&ctx(), &lost));
    // A script that is not hexadecimal, or asks for more than there is.
    for script in ["4e4", "xy", "5bffffffffffffffff", "5B000000000000000baa"] {
        assert!(!is_buildable(&TxContext { script_cbor: script, ..ctx() }, &step));
    }
    for script in ["", "5bff", "5b000000000000000aaa"] {
        assert!(is_buildable(&TxContext { script_cbor: script, ..ctx() }, &step));
    }
    let mut debt = deposit_step(&pool(), 1500, 70).unwrap();
    debt.script_cbtc = -1;
    assert!(!is_buildable(&ctx(), &debt));
    debt.script_cbtc = 1;
    debt.payout = Some((OWNER.to_string(), -1));
    assert!(!is_buildable(&ctx(), &debt));
}

#[test]
fn byte_strings_have_to_be_hexadecimal() {
    assert!(state_is_hex(&pool()));
    let mut state = pool();
    state.invoices[0].owner = "xyz".to_string();
    assert!(!state_is_hex(&state));
    let mut state = pool();
    state.offramps[0].refund_address = "abc".to_string();
    assert!(!state_is_hex(&state));
    assert!(action_is_hex(&Action::Deposit { amount: 1 }));
    assert!(action_is_hex(&Action::FulfillInvoice { invoice: invoice() }));
    assert!(!action_is_hex(&Action::CreateInvoice {
        amount: 1,
        owner: "g0".to_string(),
        timestamp: 1,
        expires_at: 2,
    }));
    assert!(!action_is_hex(&Action::CreateOfframp {
        amount: 1,
        payment_hash: "00".to_string(),
        refund_address: "0".to_string(),
        expires_at: 2,
    }));
}

use cardano_lightning_client::steps::{
    cancel_invoice_step, cancel_offramp_step, create_invoice_step, create_offramp_step,
    deposit_step, fulfill_invoice_step, fulfill_offramp_step, withdraw_step,
};
use cardano_lightning_client::{Action, CardanoError, Invoice, Offramp, State};

fn invoice(invoice_id: i64, amount: i64) -> Invoice {
    Invoice {
        invoice_id,
        amount,
        owner: "aabb".to_string(),
        timestamp: 10,
        expires_at: 20,
    }
}

fn offramp(offramp_id: i64, amount: i64) -> Offramp {
    Offramp {
        offramp_id,
        amount,
        payment_hash: "cc".to_string(),
        refund_address: "dd".to_string(),
        expires_at: 20,
    }
}

fn pool() -> State {
    State {
        total_liquidity: 1000,
        reserved: 300,
        last_invoice_id: 2,
        invoices: vec![invoice(2, 200), invoice(1, 100)],
        last_offramp_id: 5,
        offramps: vec![offramp(5, 40), offramp(3, 60)],
    }
}

#[test]
fn deposit_adds_liquidity() {
    let step = deposit_step(&pool(), 1500, 70).unwrap();
    assert_eq!(step.state, State { total_liquidity: 1070, ..pool() });
    assert_eq!(step.action, Action::Deposit { amount: 70 });
    assert_eq!(step.script_cbtc, 1570);
    assert_eq!(step.payout, None);
    assert_eq!(
        deposit_step(&pool(), 1500, 0),
        Err(CardanoError::Parse("deposit amount must be positive".to_string()))
    );
}

#[test]
fn withdrawal_takes_what_is_available() {
    let step = withdraw_step(&pool(), 1500, 700).unwrap();
    assert_eq!(step.state, State { total_liquidity: 300, ..pool() });
    assert_eq!(step.action, Action::Withdraw { amount: 700 });
    assert_eq!(step.script_cbtc, 800);
    assert_eq!(
        withdraw_step(&pool(), 1500, 701),
        Err(CardanoError::Parse("withdraw 701 exceeds available 700".to_string()))
    );
    assert_eq!(
        withdraw_step(&pool(), 1500, -1),
        Err(CardanoError::Parse("withdraw amount must be positive".to_string()))
    );
}

#[test]
fn invoice_is_put_in_front() {
    let step = create_invoice_step(&pool(), 1500, 50, "ef", 1, 2).unwrap();
    let new = Invoice {
        invoice_id: 3,
        amount: 50,
        owner: "ef".to_string(),
        timestamp: 1,
        expires_at: 2,
    };
    assert_eq!(
        step.state,
        State {
            reserved: 350,
            last_invoice_id: 3,
            invoices: vec![new, invoice(2, 200), invoice(1, 100)],
            ..pool()
        }
    );
    assert_eq!(
        step.action,
        Action::CreateInvoice {
            amount: 50,
            owner: "ef".to_string(),
            timestamp: 1,
            expires_at: 2
        }
    );
    assert_eq!(step.script_cbtc, 1500);
    assert_eq!(
        create_invoice_step(&pool(), 1500, 701, "ef", 1, 2),
        Err(CardanoError::Parse("invoice amount 701 exceeds available 700".to_string()))
    );
    assert_eq!(
        create_invoice_step(&pool(), 1500, 0, "ef", 1, 2),
        Err(CardanoError::Parse("invoice amount must be positive".to_string()))
    );
}

#[test]
fn fulfilled_invoice_is_paid_out() {
    let step = fulfill_invoice_step(&pool(), 1500, &invoice(1, 100), "addr");
    assert_eq!(
        step.state,
        State {
            total_liquidity: 900,
            reserved: 200,
            invoices: vec![invoice(2, 200)],
            ..pool()
        }
    );
    assert_eq!(step.action, Action::FulfillInvoice { invoice: invoice(1, 100) });
    assert_eq!(step.script_cbtc, 1400);
    assert_eq!(step.payout, Some(("addr".to_string(), 100)));
}

#[test]
fn cancelled_invoice_is_unreserved() {
    let step = cancel_invoice_step(&pool(), 1500, 2).unwrap();
    assert_eq!(
        step.state,
        State { reserved: 100, invoices: vec![invoice(1, 100)], ..pool() }
    );
    assert_eq!(step.action, Action::CancelInvoice { invoice_id: 2 });
    assert_eq!(step.script_cbtc, 1500);
    assert_eq!(
        cancel_invoice_step(&pool(), 1500, 7),
        Err(CardanoError::NotFound("invoice 7 not found".to_string()))
    );
}

#[test]
fn cancelling_takes_the_first_of_a_number_and_drops_all() {
    let mut state = pool();
    state.invoices = vec![invoice(1, 30), invoice(1, 100), invoice(2, 7)];
    let step = cancel_invoice_step(&state, 0, 1).unwrap();
    assert_eq!(step.state.reserved, 270);
    assert_eq!(step.state.invoices, vec![invoice(2, 7)]);
}

#[test]
fn offramp_is_put_in_front() {
    let step = create_offramp_step(&pool(), 1500, 9, "0a", "0b", 30).unwrap();
    let new = Offramp {
        offramp_id: 6,
        amount: 9,
        payment_hash: "0a".to_string(),
        refund_address: "0b".to_string(),
        expires_at: 30,
    };
    assert_eq!(
        step.state,
        State {
            last_offramp_id: 6,
            offramps: vec![new, offramp(5, 40), offramp(3, 60)],
            ..pool()
        }
    );
    assert_eq!(
        step.action,
        Action::CreateOfframp {
            amount: 9,
            payment_hash: "0a".to_string(),
            refund_address: "0b".to_string(),
            expires_at: 30
        }
    );
    assert_eq!(step.script_cbtc, 1500);
    assert_eq!(
        create_offramp_step(&pool(), 1500, 0, "0a", "0b", 30),
        Err(CardanoError::Parse("offramp amount must be positive".to_string()))
    );
}

#[test]
fn fulfilled_offramp_adds_liquidity() {
    let step = fulfill_offramp_step(&pool(), 1500, &offramp(5, 40));
    assert_eq!(
        step.state,
        State { total_liquidity: 1040, offramps: vec![offramp(3, 60)], ..pool() }
    );
    assert_eq!(step.action, Action::FulfillOfframp { offramp: offramp(5, 40) });
    assert_eq!(step.script_cbtc, 1540);
    assert_eq!(step.payout, None);
}

#[test]
fn cancelled_offramp_is_dropped() {
    let step = cancel_offramp_step(&pool(), 1500, 3).unwrap();
    assert_eq!(step.state, State { offramps: vec![offramp(5, 40)], ..pool() });
    assert_eq!(step.action, Action::CancelOfframp { offramp_id: 3 });
    assert_eq!(step.script_cbtc, 1500);
    assert_eq!(
        cancel_offramp_step(&pool(), 1500, 4),
        Err(CardanoError::NotFound("offramp 4 not found".to_string()))
    );
}

#[test]
fn withdrawing_a_deposit_gives_the_pool_back() {
    let first = deposit_step(&pool(), 1500, 70).unwrap();
    let second = withdraw_step(&first.state, first.script_cbtc, 70).unwrap();
    assert_eq!(second.state, pool());
    assert_eq!(second.script_cbtc, 1500);
}

#[test]
fn cancelling_a_new_invoice_gives_the_pool_back() {
    let first = create_invoice_step(&pool(), 1500, 50, "ef", 1, 2).unwrap();
    let second = cancel_invoice_step(&first.state, first.script_cbtc, 3).unwrap();
    assert_eq!(second.state, State { last_invoice_id: 3, ..pool() });
}

#[test]
fn fulfilling_a_new_invoice_takes_its_amount() {
    let first = create_invoice_step(&pool(), 1500, 50, "ef", 1, 2).unwrap();
    let new = first.state.invoices[0].clone();
    let second = fulfill_invoice_step(&first.state, first.script_cbtc, &new, "addr");
    assert_eq!(
        second.state,
        State { total_liquidity: 950, last_invoice_id: 3, ..pool() }
    );
    assert_eq!(second.script_cbtc, 1450);
    assert_eq!(second.payout, Some(("addr".to_string(), 50)));
}

#[test]
fn cancelling_or_fulfilling_a_new_offramp() {
    let first = create_offramp_step(&pool(), 1500, 9, "0a", "0b", 30).unwrap();
    let cancelled = cancel_offramp_step(&first.state, first.script_cbtc, 6).unwrap();
    assert_eq!(cancelled.state, State { last_offramp_id: 6, ..pool() });
    let new = first.state.offramps[0].clone();
    let fulfilled = fulfill_offramp_step(&first.state, first.script_cbtc, &new);
    assert_eq!(
        fulfilled.state,
        State { total_liquidity: 1009, last_offramp_id: 6, ..pool() }
    );
    assert_eq!(fulfilled.script_cbtc, 1509);
}

#[test]
fn steps_keep_the_pool_backed_and_sound() {
    let cbtc = 1500;
    let steps = vec![
        deposit_step(&pool(), cbtc, 70).unwrap(),
        withdraw_step(&pool(), cbtc, 700).unwrap(),
        create_invoice_step(&pool(), cbtc, 50, "ef", 1, 2).unwrap(),
        fulfill_invoice_step(&pool(), cbtc, &invoice(2, 200), "addr"),
        cancel_invoice_step(&pool(), cbtc, 1).unwrap(),
        create_offramp_step(&pool(), cbtc, 9, "0a", "0b", 30).unwrap(),
        fulfill_offramp_step(&pool(), cbtc, &offramp(3, 60)),
        cancel_offramp_step(&pool(), cbtc, 3).unwrap(),
    ];
    let brought = [70, -700, 0, 0, 0, 0, 60, 0];
    for (step, inflow) in steps.iter().zip(brought) {
        assert_eq!(step.script_cbtc - step.state.total_liquidity, 500);
        let paid = step.payout.as_ref().map_or(0, |p| p.1);
        assert_eq!(step.script_cbtc + paid, cbtc + inflow);
        let sum: i64 = step.state.invoices.iter().map(|i| i.amount).sum();
        assert_eq!(step.state.reserved, sum);
        assert!(step.state.available() >= 0);
    }
}

#[test]
fn a_new_invoice_keeps_the_books_in_order() {
    // Odd amounts and offramps do not matter.
    let odd = State {
        total_liquidity: 1000,
        reserved: 150,
        last_invoice_id: 7,
        invoices: vec![invoice(7, -50), invoice(3, 0), invoice(-4, 200)],
        last_offramp_id: 1,
        offramps: vec![offramp(9, -1), offramp(9, -1)],
    };
    let state = create_invoice_step(&odd, 1500, 850, "aabb", 10, 20).unwrap().state;
    assert_eq!(state.reserved, state.invoices.iter().map(|i| i.amount).sum::<i64>());
    assert_eq!(state.reserved, state.total_liquidity);
    assert_eq!(state.last_invoice_id, 8);
    assert_eq!(state.invoices[0].invoice_id, 8);
    assert_eq!(state.invoices[1..], odd.invoices);
    assert!(create_invoice_step(&odd, 1500, 851, "aabb", 10, 20).is_err());
}

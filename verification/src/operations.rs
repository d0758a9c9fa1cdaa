//! What callers can rely on: laws of the executable functions themselves, over their
//! arguments and their results.

use crate::contract::TxContext;
use crate::error::{CardanoError, ErrorView};
use crate::steps::{ContractStep, StepView};
use crate::types::{Action, Invoice, InvoiceView, Offramp, OfframpView, State};
use crate::{contract, effects, error, steps, text, transactions};
use vstd::prelude::*;

verus! {

/// A deposit step adds a positive amount to the liquidity and to the cBTC of the script, and
/// changes nothing else.
pub proof fn law_deposit_step(
    s: State,
    cbtc: i64,
    amount: i64,
    r: Result<ContractStep, CardanoError>,
)
    requires
        call_ensures(steps::deposit_step, (&s, cbtc, amount), r),
        0 < amount ==> s.total_liquidity + amount <= i64::MAX && cbtc + amount <= i64::MAX,
    ensures
        match r {
            Ok(t) => {
                &&& 0 < amount
                &&& t.state.total_liquidity - s.total_liquidity == amount
                &&& t.script_cbtc - cbtc == amount
                &&& t.state.reserved == s.reserved
                &&& t.state.last_invoice_id == s.last_invoice_id
                &&& t.state@.invoices == s@.invoices
                &&& t.state.last_offramp_id == s.last_offramp_id
                &&& t.state@.offramps == s@.offramps
                &&& t.payout is None
                &&& t.action is Deposit && t.action->Deposit_amount == amount
            },
            Err(e) => amount <= 0 && e@ == ErrorView::Parse("deposit amount must be positive"@),
        },
{
    effects::lemma_deposit_effect(s@, cbtc, amount);
}

/// A withdrawal step takes a positive amount, of which nothing may be reserved, from the
/// liquidity and from the cBTC of the script, and changes nothing else.
pub proof fn law_withdraw_step(
    s: State,
    cbtc: i64,
    amount: i64,
    r: Result<ContractStep, CardanoError>,
)
    requires
        call_ensures(steps::withdraw_step, (&s, cbtc, amount), r),
        0 < amount <= s.total_liquidity - s.reserved ==> i64::MIN <= s.total_liquidity - amount
            && i64::MIN <= cbtc - amount,
    ensures
        match r {
            Ok(t) => {
                &&& 0 < amount <= s.total_liquidity - s.reserved
                &&& s.total_liquidity - t.state.total_liquidity == amount
                &&& cbtc - t.script_cbtc == amount
                &&& t.state.reserved == s.reserved
                &&& t.state.last_invoice_id == s.last_invoice_id
                &&& t.state@.invoices == s@.invoices
                &&& t.state.last_offramp_id == s.last_offramp_id
                &&& t.state@.offramps == s@.offramps
                &&& t.payout is None
                &&& t.action is Withdraw && t.action->Withdraw_amount == amount
            },
            Err(e) => {
                &&& !(0 < amount <= s.total_liquidity - s.reserved)
                &&& e@ == ErrorView::Parse(
                    if amount <= 0 {
                        "withdraw amount must be positive"@
                    } else {
                        "withdraw "@ + text::decimal(amount as int) + " exceeds available "@
                            + text::decimal(s.total_liquidity - s.reserved)
                    },
                )
            },
        },
{
    effects::lemma_withdraw_effect(s@, cbtc, amount);
}

/// A step that creates an invoice reserves a positive amount of what is not reserved yet. The
/// invoice stands before all others, under the number after the last one.
pub proof fn law_create_invoice_step(
    s: State,
    cbtc: i64,
    amount: i64,
    owner: &str,
    timestamp: i64,
    expires_at: i64,
    r: Result<ContractStep, CardanoError>,
)
    requires
        call_ensures(
            steps::create_invoice_step,
            (&s, cbtc, amount, owner, timestamp, expires_at),
            r,
        ),
        0 < amount <= s.total_liquidity - s.reserved ==> s.reserved + amount <= i64::MAX
            && s.last_invoice_id < i64::MAX,
    ensures
        match r {
            Ok(t) => {
                &&& 0 < amount <= s.total_liquidity - s.reserved
                &&& t.state.reserved - s.reserved == amount
                &&& t.state.last_invoice_id - s.last_invoice_id == 1
                &&& t.state.invoices@.len() == s.invoices@.len() + 1
                &&& t.state@.invoices.skip(1) == s@.invoices
                &&& t.state.invoices@[0].invoice_id == t.state.last_invoice_id
                &&& t.state.invoices@[0].amount == amount
                &&& t.state.invoices@[0].owner@ == owner@
                &&& t.state.invoices@[0].timestamp == timestamp
                &&& t.state.invoices@[0].expires_at == expires_at
                &&& t.state.total_liquidity == s.total_liquidity
                &&& t.state.last_offramp_id == s.last_offramp_id
                &&& t.state@.offramps == s@.offramps
                &&& t.script_cbtc == cbtc
                &&& t.payout is None
                &&& t.action is CreateInvoice
                &&& t.action->CreateInvoice_amount == amount
                &&& t.action->CreateInvoice_owner@ == owner@
                &&& t.action->CreateInvoice_timestamp == timestamp
                &&& t.action->CreateInvoice_expires_at == expires_at
            },
            Err(e) => {
                &&& !(0 < amount <= s.total_liquidity - s.reserved)
                &&& e@ == ErrorView::Parse(
                    if amount <= 0 {
                        "invoice amount must be positive"@
                    } else {
                        "invoice amount "@ + text::decimal(amount as int)
                            + " exceeds available "@ + text::decimal(
                            s.total_liquidity - s.reserved,
                        )
                    },
                )
            },
        },
{
    effects::lemma_create_invoice_effect(s@, cbtc, amount, owner@, timestamp, expires_at);
    if let Ok(t) = r {
        assert(t.state@.invoices[0] == t.state.invoices@[0]@);
        match t.action {
            Action::CreateInvoice { .. } => {},
            _ => {},
        }
    }
}

/// A step that fulfills an invoice leaves every invoice of another number in place and none of
/// its own number. The amount leaves the liquidity, what is reserved and the script, and goes
/// to the address of the owner.
pub proof fn law_fulfill_invoice_step(
    s: State,
    cbtc: i64,
    invoice: Invoice,
    owner_address: &str,
    t: ContractStep,
)
    requires
        call_ensures(steps::fulfill_invoice_step, (&s, cbtc, &invoice, owner_address), t),
        i64::MIN <= s.total_liquidity - invoice.amount <= i64::MAX,
        i64::MIN <= s.reserved - invoice.amount <= i64::MAX,
        i64::MIN <= cbtc - invoice.amount <= i64::MAX,
    ensures
        t.state@.invoices == s@.invoices.filter(
            |x: InvoiceView| x.invoice_id != invoice.invoice_id,
        ),
        forall|i: int|
            0 <= i < t.state.invoices@.len() ==> (#[trigger] t.state.invoices@[i]).invoice_id
                != invoice.invoice_id,
        s.total_liquidity - t.state.total_liquidity == invoice.amount,
        s.reserved - t.state.reserved == invoice.amount,
        cbtc - t.script_cbtc == invoice.amount,
        t.payout is Some,
        t.payout->Some_0.0@ == owner_address@,
        t.payout->Some_0.1 == invoice.amount,
        t.state.last_invoice_id == s.last_invoice_id,
        t.state.last_offramp_id == s.last_offramp_id,
        t.state@.offramps == s@.offramps,
        t.action is FulfillInvoice,
        t.action->invoice@ == invoice@,
{
    effects::lemma_fulfill_invoice_effect(s@, cbtc, invoice@, owner_address@);
    assert forall|i: int| 0 <= i < t.state.invoices@.len() implies (
    #[trigger] t.state.invoices@[i]).invoice_id != invoice.invoice_id by {
        assert(t.state@.invoices[i] == t.state.invoices@[i]@);
    }
}

/// A step that cancels an invoice leaves every invoice of another number in place and none of
/// its own number, and unreserves the amount of the first one of that number. Without one it
/// is refused.
pub proof fn law_cancel_invoice_step(
    s: State,
    cbtc: i64,
    id: i64,
    r: Result<ContractStep, CardanoError>,
)
    requires
        call_ensures(steps::cancel_invoice_step, (&s, cbtc, id), r),
    ensures
        match r {
            Ok(t) => {
                &&& exists|k: int|
                    {
                        &&& 0 <= k < s.invoices@.len()
                        &&& (#[trigger] s.invoices@[k]).invoice_id == id
                        &&& forall|i: int|
                            0 <= i < k ==> (#[trigger] s.invoices@[i]).invoice_id != id
                        &&& i64::MIN <= s.reserved - s.invoices@[k].amount <= i64::MAX
                            ==> s.reserved - t.state.reserved == s.invoices@[k].amount
                    }
                &&& t.state@.invoices == s@.invoices.filter(|x: InvoiceView| x.invoice_id != id)
                &&& forall|i: int|
                    0 <= i < t.state.invoices@.len() ==> (
                    #[trigger] t.state.invoices@[i]).invoice_id != id
                &&& t.state.total_liquidity == s.total_liquidity
                &&& t.state.last_invoice_id == s.last_invoice_id
                &&& t.state.last_offramp_id == s.last_offramp_id
                &&& t.state@.offramps == s@.offramps
                &&& t.script_cbtc == cbtc
                &&& t.payout is None
                &&& t.action is CancelInvoice && t.action->invoice_id == id
            },
            Err(e) => {
                &&& forall|i: int|
                    0 <= i < s.invoices@.len() ==> (#[trigger] s.invoices@[i]).invoice_id != id
                &&& e@ == ErrorView::NotFound(
                    "invoice "@ + text::decimal(id as int) + " not found"@,
                )
            },
        },
{
    let views = s@.invoices;
    effects::lemma_cancel_invoice_effect(s@, cbtc, id);
    match r {
        Ok(t) => {
            let k = choose|k: int|
                {
                    &&& 0 <= k < views.len()
                    &&& (#[trigger] views[k]).invoice_id == id
                    &&& forall|i: int| 0 <= i < k ==> (#[trigger] views[i]).invoice_id != id
                    &&& i64::MIN <= s.reserved - views[k].amount <= i64::MAX ==> s.reserved
                        - t@.state.reserved == views[k].amount
                };
            assert(s.invoices@[k]@ == views[k]);
            assert forall|i: int| 0 <= i < k implies (#[trigger] s.invoices@[i]).invoice_id
                != id by {
                assert(views[i] == s.invoices@[i]@);
            }
            assert forall|i: int| 0 <= i < t.state.invoices@.len() implies (
            #[trigger] t.state.invoices@[i]).invoice_id != id by {
                assert(t.state@.invoices[i] == t.state.invoices@[i]@);
            }
        },
        Err(e) => {
            assert forall|i: int| 0 <= i < s.invoices@.len() implies (
            #[trigger] s.invoices@[i]).invoice_id != id by {
                assert(views[i] == s.invoices@[i]@);
            }
        },
    }
}

/// A step that creates an offramp puts it before all others, under the number after the last
/// one, and moves no cBTC.
pub proof fn law_create_offramp_step(
    s: State,
    cbtc: i64,
    amount: i64,
    payment_hash: &str,
    refund_address: &str,
    expires_at: i64,
    r: Result<ContractStep, CardanoError>,
)
    requires
        call_ensures(
            steps::create_offramp_step,
            (&s, cbtc, amount, payment_hash, refund_address, expires_at),
            r,
        ),
        0 < amount ==> s.last_offramp_id < i64::MAX,
    ensures
        match r {
            Ok(t) => {
                &&& 0 < amount
                &&& t.state.last_offramp_id - s.last_offramp_id == 1
                &&& t.state.offramps@.len() == s.offramps@.len() + 1
                &&& t.state@.offramps.skip(1) == s@.offramps
                &&& t.state.offramps@[0].offramp_id == t.state.last_offramp_id
                &&& t.state.offramps@[0].amount == amount
                &&& t.state.offramps@[0].payment_hash@ == payment_hash@
                &&& t.state.offramps@[0].refund_address@ == refund_address@
                &&& t.state.offramps@[0].expires_at == expires_at
                &&& t.state.total_liquidity == s.total_liquidity
                &&& t.state.reserved == s.reserved
                &&& t.state.last_invoice_id == s.last_invoice_id
                &&& t.state@.invoices == s@.invoices
                &&& t.script_cbtc == cbtc
                &&& t.payout is None
                &&& t.action is CreateOfframp
                &&& t.action->CreateOfframp_amount == amount
                &&& t.action->payment_hash@ == payment_hash@
                &&& t.action->refund_address@ == refund_address@
                &&& t.action->CreateOfframp_expires_at == expires_at
            },
            Err(e) => amount <= 0 && e@ == ErrorView::Parse("offramp amount must be positive"@),
        },
{
    effects::lemma_create_offramp_effect(
        s@,
        cbtc,
        amount,
        payment_hash@,
        refund_address@,
        expires_at,
    );
    if let Ok(t) = r {
        assert(t.state@.offramps[0] == t.state.offramps@[0]@);
        match t.action {
            Action::CreateOfframp { .. } => {},
            _ => {},
        }
    }
}

/// A step that fulfills an offramp leaves every offramp of another number in place and none of
/// its own number. The amount goes into the liquidity and to the script.
pub proof fn law_fulfill_offramp_step(s: State, cbtc: i64, offramp: Offramp, t: ContractStep)
    requires
        call_ensures(steps::fulfill_offramp_step, (&s, cbtc, &offramp), t),
        i64::MIN <= s.total_liquidity + offramp.amount <= i64::MAX,
        i64::MIN <= cbtc + offramp.amount <= i64::MAX,
    ensures
        t.state@.offramps == s@.offramps.filter(
            |x: OfframpView| x.offramp_id != offramp.offramp_id,
        ),
        forall|i: int|
            0 <= i < t.state.offramps@.len() ==> (#[trigger] t.state.offramps@[i]).offramp_id
                != offramp.offramp_id,
        t.state.total_liquidity - s.total_liquidity == offramp.amount,
        t.script_cbtc - cbtc == offramp.amount,
        t.state.reserved == s.reserved,
        t.state.last_invoice_id == s.last_invoice_id,
        t.state@.invoices == s@.invoices,
        t.state.last_offramp_id == s.last_offramp_id,
        t.payout is None,
        t.action is FulfillOfframp,
        t.action->offramp@ == offramp@,
{
    effects::lemma_fulfill_offramp_effect(s@, cbtc, offramp@);
    assert forall|i: int| 0 <= i < t.state.offramps@.len() implies (
    #[trigger] t.state.offramps@[i]).offramp_id != offramp.offramp_id by {
        assert(t.state@.offramps[i] == t.state.offramps@[i]@);
    }
}

/// A step that cancels an offramp leaves every offramp of another number in place and none of
/// its own number, and changes nothing else. Without one it is refused.
pub proof fn law_cancel_offramp_step(
    s: State,
    cbtc: i64,
    id: i64,
    r: Result<ContractStep, CardanoError>,
)
    requires
        call_ensures(steps::cancel_offramp_step, (&s, cbtc, id), r),
    ensures
        match r {
            Ok(t) => {
                &&& exists|k: int|
                    0 <= k < s.offramps@.len() && (#[trigger] s.offramps@[k]).offramp_id == id
                &&& t.state@.offramps == s@.offramps.filter(|x: OfframpView| x.offramp_id != id)
                &&& forall|i: int|
                    0 <= i < t.state.offramps@.len() ==> (
                    #[trigger] t.state.offramps@[i]).offramp_id != id
                &&& t.state.total_liquidity == s.total_liquidity
                &&& t.state.reserved == s.reserved
                &&& t.state.last_invoice_id == s.last_invoice_id
                &&& t.state@.invoices == s@.invoices
                &&& t.state.last_offramp_id == s.last_offramp_id
                &&& t.script_cbtc == cbtc
                &&& t.payout is None
                &&& t.action is CancelOfframp && t.action->offramp_id == id
            },
            Err(e) => {
                &&& forall|i: int|
                    0 <= i < s.offramps@.len() ==> (#[trigger] s.offramps@[i]).offramp_id != id
                &&& e@ == ErrorView::NotFound(
                    "offramp "@ + text::decimal(id as int) + " not found"@,
                )
            },
        },
{
    let views = s@.offramps;
    effects::lemma_cancel_offramp_effect(s@, cbtc, id);
    match r {
        Ok(t) => {
            let k = choose|k: int|
                0 <= k < views.len() && (#[trigger] views[k]).offramp_id == id;
            assert(s.offramps@[k]@ == views[k]);
            assert forall|i: int| 0 <= i < t.state.offramps@.len() implies (
            #[trigger] t.state.offramps@[i]).offramp_id != id by {
                assert(t.state@.offramps[i] == t.state.offramps@[i]@);
            }
        },
        Err(e) => {
            assert forall|i: int| 0 <= i < s.offramps@.len() implies (
            #[trigger] s.offramps@[i]).offramp_id != id by {
                assert(views[i] == s.offramps@[i]@);
            }
        },
    }
}

/// Whether a refusal is one that no step decides: there is no collateral, or the SDK refused
/// to build or to sign.
pub open spec fn is_late_refusal(ctx: TxContext, e: ErrorView) -> bool {
    ||| e == ErrorView::Parse("no ADA-only wallet UTxO with >= 5 ADA for collateral"@)
        && forall|j: int|
        0 <= j < ctx.wallet_utxos@.len() ==> !transactions::is_five_ada(
            (#[trigger] ctx.wallet_utxos@[j])@,
        )
    ||| exists|words: Seq<char>| #![auto] e == ErrorView::Parse("tx build failed: "@ + words)
    ||| exists|words: Seq<char>| #![auto] e == ErrorView::Parse("tx signing failed: "@ + words)
}

/// A transaction for a step is one that was signed for it.
pub proof fn law_contract_tx(
    ctx: TxContext,
    step: ContractStep,
    r: Result<String, CardanoError>,
)
    requires
        call_ensures(contract::build_contract_tx, (&ctx, &step), r),
        ctx.cbtc_policy@ + ctx.cbtc_name@ != "lovelace"@,
    ensures
        match r {
            Ok(hex) => transactions::is_signed(ctx@, step@, hex@),
            Err(e) => is_late_refusal(ctx, e@),
        },
{
    lemma_yields(ctx, step@, error::outcome(r));
}

/// What comes of a step.
pub proof fn lemma_yields(
    ctx: TxContext,
    step: StepView,
    r: Result<Seq<char>, ErrorView>,
)
    requires
        contract::step_yields(ctx@, step, r),
        ctx.cbtc_policy@ + ctx.cbtc_name@ != "lovelace"@,
    ensures
        match r {
            Ok(hex) => transactions::is_signed(ctx@, step, hex),
            Err(e) => is_late_refusal(ctx, e),
        },
{
    match r {
        Ok(hex) => transactions::lemma_transaction_contents(ctx@, step, hex),
        Err(e) => {
            transactions::lemma_collateral_is_five_ada(ctx@.wallet_utxos);
            if contract::first_collateral(ctx@.wallet_utxos) is None {
                assert forall|j: int|
                    0 <= j < ctx.wallet_utxos@.len() implies !transactions::is_five_ada(
                    (#[trigger] ctx.wallet_utxos@[j])@,
                ) by {
                    assert(ctx@.wallet_utxos[j] == ctx.wallet_utxos@[j]@);
                }
            }
        },
    }
}

/// The transaction of a deposit is that of the deposit step, and is refused where the step is.
pub proof fn law_deposit_tx(
    ctx: TxContext,
    s: State,
    amount: i64,
    step: Result<ContractStep, CardanoError>,
    r: Result<String, CardanoError>,
)
    requires
        call_ensures(contract::build_deposit_tx, (&ctx, &s, amount), r),
        call_ensures(steps::deposit_step, (&s, ctx.script_cbtc, amount), step),
        ctx.cbtc_policy@ + ctx.cbtc_name@ != "lovelace"@,
    ensures
        match (step, r) {
            (Ok(t), Ok(hex)) => transactions::is_signed(ctx@, t@, hex@),
            (Ok(t), Err(e)) => is_late_refusal(ctx, e@),
            (Err(d), Err(e)) => e@ == d@,
            (Err(d), Ok(hex)) => false,
        },
{
    if let Ok(t) = step {
        lemma_yields(ctx, t@, error::outcome(r));
    }
}

/// The transaction of a withdrawal is that of the withdrawal step, and is refused where the
/// step is.
pub proof fn law_withdraw_tx(
    ctx: TxContext,
    s: State,
    amount: i64,
    step: Result<ContractStep, CardanoError>,
    r: Result<String, CardanoError>,
)
    requires
        call_ensures(contract::build_withdraw_tx, (&ctx, &s, amount), r),
        call_ensures(steps::withdraw_step, (&s, ctx.script_cbtc, amount), step),
        ctx.cbtc_policy@ + ctx.cbtc_name@ != "lovelace"@,
    ensures
        match (step, r) {
            (Ok(t), Ok(hex)) => transactions::is_signed(ctx@, t@, hex@),
            (Ok(t), Err(e)) => is_late_refusal(ctx, e@),
            (Err(d), Err(e)) => e@ == d@,
            (Err(d), Ok(hex)) => false,
        },
{
    if let Ok(t) = step {
        lemma_yields(ctx, t@, error::outcome(r));
    }
}

/// The transaction that creates an invoice is that of the step that does so, and is refused
/// where the step is.
pub proof fn law_create_invoice_tx(
    ctx: TxContext,
    s: State,
    amount: i64,
    owner: &str,
    timestamp: i64,
    expires_at: i64,
    step: Result<ContractStep, CardanoError>,
    r: Result<String, CardanoError>,
)
    requires
        call_ensures(
            contract::build_create_invoice_tx,
            (&ctx, &s, amount, owner, timestamp, expires_at),
            r,
        ),
        call_ensures(
            steps::create_invoice_step,
            (&s, ctx.script_cbtc, amount, owner, timestamp, expires_at),
            step,
        ),
        ctx.cbtc_policy@ + ctx.cbtc_name@ != "lovelace"@,
    ensures
        match (step, r) {
            (Ok(t), Ok(hex)) => transactions::is_signed(ctx@, t@, hex@),
            (Ok(t), Err(e)) => is_late_refusal(ctx, e@),
            (Err(d), Err(e)) => e@ == d@,
            (Err(d), Ok(hex)) => false,
        },
{
    if let Ok(t) = step {
        lemma_yields(ctx, t@, error::outcome(r));
    }
}

/// The transaction that fulfills an invoice is that of the step that does so.
pub proof fn law_fulfill_invoice_tx(
    ctx: TxContext,
    s: State,
    invoice: Invoice,
    owner_address: &str,
    step: ContractStep,
    r: Result<String, CardanoError>,
)
    requires
        call_ensures(
            contract::build_fulfill_invoice_tx,
            (&ctx, &s, &invoice, owner_address),
            r,
        ),
        call_ensures(
            steps::fulfill_invoice_step,
            (&s, ctx.script_cbtc, &invoice, owner_address),
            step,
        ),
        ctx.cbtc_policy@ + ctx.cbtc_name@ != "lovelace"@,
    ensures
        match r {
            Ok(hex) => transactions::is_signed(ctx@, step@, hex@),
            Err(e) => is_late_refusal(ctx, e@),
        },
{
    lemma_yields(ctx, step@, error::outcome(r));
}

/// The transaction that cancels an invoice is that of the step that does so, and is refused
/// where the step is.
pub proof fn law_cancel_invoice_tx(
    ctx: TxContext,
    s: State,
    id: i64,
    step: Result<ContractStep, CardanoError>,
    r: Result<String, CardanoError>,
)
    requires
        call_ensures(contract::build_cancel_invoice_tx, (&ctx, &s, id), r),
        call_ensures(steps::cancel_invoice_step, (&s, ctx.script_cbtc, id), step),
        ctx.cbtc_policy@ + ctx.cbtc_name@ != "lovelace"@,
    ensures
        match (step, r) {
            (Ok(t), Ok(hex)) => transactions::is_signed(ctx@, t@, hex@),
            (Ok(t), Err(e)) => is_late_refusal(ctx, e@),
            (Err(d), Err(e)) => e@ == d@,
            (Err(d), Ok(hex)) => false,
        },
{
    if let Ok(t) = step {
        lemma_yields(ctx, t@, error::outcome(r));
    }
}

/// The transaction that creates an offramp is that of the step that does so, comes with the
/// number of the new offramp, and is refused where the step is.
pub proof fn law_create_offramp_tx(
    ctx: TxContext,
    s: State,
    amount: i64,
    payment_hash: &str,
    refund_address: &str,
    expires_at: i64,
    step: Result<ContractStep, CardanoError>,
    r: Result<(i64, String), CardanoError>,
)
    requires
        call_ensures(
            contract::build_create_offramp_tx,
            (&ctx, &s, amount, payment_hash, refund_address, expires_at),
            r,
        ),
        call_ensures(
            steps::create_offramp_step,
            (&s, ctx.script_cbtc, amount, payment_hash, refund_address, expires_at),
            step,
        ),
        0 < amount ==> s.last_offramp_id < i64::MAX,
        ctx.cbtc_policy@ + ctx.cbtc_name@ != "lovelace"@,
    ensures
        match (step, r) {
            (Ok(t), Ok((id, hex))) => {
                &&& transactions::is_signed(ctx@, t@, hex@)
                &&& id == t.state.offramps@[0].offramp_id
                &&& id == s.last_offramp_id + 1
            },
            (Ok(t), Err(e)) => is_late_refusal(ctx, e@),
            (Err(d), Err(e)) => e@ == d@,
            (Err(d), Ok(_)) => false,
        },
{
    law_create_offramp_step(
        s,
        ctx.script_cbtc,
        amount,
        payment_hash,
        refund_address,
        expires_at,
        step,
    );
    if let Ok(t) = step {
        let outcome = match r {
            Ok((_, hex)) => Ok(hex@),
            Err(e) => Err(e@),
        };
        lemma_yields(ctx, t@, outcome);
    }
}

/// The transaction that fulfills an offramp is that of the step that does so.
pub proof fn law_fulfill_offramp_tx(
    ctx: TxContext,
    s: State,
    offramp: Offramp,
    step: ContractStep,
    r: Result<String, CardanoError>,
)
    requires
        call_ensures(contract::build_fulfill_offramp_tx, (&ctx, &s, &offramp), r),
        call_ensures(steps::fulfill_offramp_step, (&s, ctx.script_cbtc, &offramp), step),
        ctx.cbtc_policy@ + ctx.cbtc_name@ != "lovelace"@,
    ensures
        match r {
            Ok(hex) => transactions::is_signed(ctx@, step@, hex@),
            Err(e) => is_late_refusal(ctx, e@),
        },
{
    lemma_yields(ctx, step@, error::outcome(r));
}

/// The transaction that cancels an offramp is that of the step that does so, and is refused
/// where the step is.
pub proof fn law_cancel_offramp_tx(
    ctx: TxContext,
    s: State,
    id: i64,
    step: Result<ContractStep, CardanoError>,
    r: Result<String, CardanoError>,
)
    requires
        call_ensures(contract::build_cancel_offramp_tx, (&ctx, &s, id), r),
        call_ensures(steps::cancel_offramp_step, (&s, ctx.script_cbtc, id), step),
        ctx.cbtc_policy@ + ctx.cbtc_name@ != "lovelace"@,
    ensures
        match (step, r) {
            (Ok(t), Ok(hex)) => transactions::is_signed(ctx@, t@, hex@),
            (Ok(t), Err(e)) => is_late_refusal(ctx, e@),
            (Err(d), Err(e)) => e@ == d@,
            (Err(d), Ok(hex)) => false,
        },
{
    if let Ok(t) = step {
        lemma_yields(ctx, t@, error::outcome(r));
    }
}

} // verus!

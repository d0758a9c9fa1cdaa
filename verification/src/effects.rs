//! What each operation of the contract does to the pool, and what it leaves alone.

use crate::error::ErrorView;
use crate::steps::ContractStep;
use crate::types::{InvoiceView, OfframpView, StateView};
use crate::{steps, text};
use vstd::prelude::*;

verus! {

/// A deposit adds a positive amount to the liquidity and to the cBTC of the script. Nothing
/// else changes and nothing is paid out. No other amount is accepted.
pub proof fn lemma_deposit_effect(s: StateView, cbtc: i64, amount: i64)
    requires
        0 < amount ==> s.total_liquidity + amount <= i64::MAX && cbtc + amount <= i64::MAX,
    ensures
        match steps::deposit(s, cbtc, amount) {
            Ok(t) => {
                &&& 0 < amount
                &&& t.state.total_liquidity - s.total_liquidity == amount
                &&& t.script_cbtc - cbtc == amount
                &&& t.state.reserved == s.reserved
                &&& t.state.last_invoice_id == s.last_invoice_id
                &&& t.state.invoices == s.invoices
                &&& t.state.last_offramp_id == s.last_offramp_id
                &&& t.state.offramps == s.offramps
                &&& t.payout is None
                &&& t.action is Deposit && t.action->Deposit_amount == amount
            },
            Err(e) => amount <= 0 && e == ErrorView::Parse("deposit amount must be positive"@),
        },
{
}

/// A withdrawal takes a positive amount from the liquidity and from the cBTC of the script.
/// It is accepted exactly when that much is not reserved.
pub proof fn lemma_withdraw_effect(s: StateView, cbtc: i64, amount: i64)
    requires
        0 < amount <= s.total_liquidity - s.reserved ==> i64::MIN <= s.total_liquidity - amount
            && i64::MIN <= cbtc - amount,
    ensures
        match steps::withdraw(s, cbtc, amount) {
            Ok(t) => {
                &&& 0 < amount <= s.total_liquidity - s.reserved
                &&& s.total_liquidity - t.state.total_liquidity == amount
                &&& cbtc - t.script_cbtc == amount
                &&& t.state.reserved == s.reserved
                &&& t.state.last_invoice_id == s.last_invoice_id
                &&& t.state.invoices == s.invoices
                &&& t.state.last_offramp_id == s.last_offramp_id
                &&& t.state.offramps == s.offramps
                &&& t.payout is None
                &&& t.action is Withdraw && t.action->Withdraw_amount == amount
            },
            Err(ErrorView::Parse(m)) => if amount <= 0 {
                m == "withdraw amount must be positive"@
            } else {
                &&& amount > s.total_liquidity - s.reserved
                &&& m == "withdraw "@ + text::decimal(amount as int) + " exceeds available "@
                    + text::decimal(s.total_liquidity - s.reserved)
            },
            Err(_) => false,
        },
{
}

/// A new invoice reserves a positive amount. It stands before all other invoices, under the
/// number after the last one, with what the caller gave for it. The cBTC stays where it is.
/// It is accepted exactly when that much is not reserved yet.
pub proof fn lemma_create_invoice_effect(
    s: StateView,
    cbtc: i64,
    amount: i64,
    owner: Seq<char>,
    timestamp: i64,
    expires_at: i64,
)
    requires
        0 < amount <= s.total_liquidity - s.reserved ==> s.reserved + amount <= i64::MAX
            && s.last_invoice_id < i64::MAX,
    ensures
        match steps::create_invoice(s, cbtc, amount, owner, timestamp, expires_at) {
            Ok(t) => {
                &&& 0 < amount <= s.total_liquidity - s.reserved
                &&& t.state.reserved - s.reserved == amount
                &&& t.state.last_invoice_id - s.last_invoice_id == 1
                &&& t.state.invoices.len() == s.invoices.len() + 1
                &&& t.state.invoices.skip(1) == s.invoices
                &&& t.state.invoices[0].invoice_id == t.state.last_invoice_id
                &&& t.state.invoices[0].amount == amount
                &&& t.state.invoices[0].owner == owner
                &&& t.state.invoices[0].timestamp == timestamp
                &&& t.state.invoices[0].expires_at == expires_at
                &&& t.state.total_liquidity == s.total_liquidity
                &&& t.state.last_offramp_id == s.last_offramp_id
                &&& t.state.offramps == s.offramps
                &&& t.script_cbtc == cbtc
                &&& t.payout is None
                &&& t.action is CreateInvoice
                &&& t.action->CreateInvoice_amount == amount
                &&& t.action->CreateInvoice_owner == owner
                &&& t.action->CreateInvoice_timestamp == timestamp
                &&& t.action->CreateInvoice_expires_at == expires_at
            },
            Err(ErrorView::Parse(m)) => if amount <= 0 {
                m == "invoice amount must be positive"@
            } else {
                &&& amount > s.total_liquidity - s.reserved
                &&& m == "invoice amount "@ + text::decimal(amount as int)
                    + " exceeds available "@ + text::decimal(s.total_liquidity - s.reserved)
            },
            Err(_) => false,
        },
{
    if 0 < amount <= s.total_liquidity - s.reserved {
        let t = steps::create_invoice(s, cbtc, amount, owner, timestamp, expires_at)->Ok_0;
        assert(t.state.invoices.skip(1) =~= s.invoices);
    }
}

/// What is left of the invoices without one number are those of every other number, in
/// their order.
proof fn lemma_other_invoices(invoices: Seq<InvoiceView>, id: i64)
    ensures
        steps::without_invoice(invoices, id) == invoices.filter(
            |x: InvoiceView| x.invoice_id != id,
        ),
    decreases invoices.len(),
{
    reveal(Seq::filter);
    if invoices.len() > 0 {
        lemma_other_invoices(invoices.drop_last(), id);
    }
}

/// What is left of the offramps without one number are those of every other number, in
/// their order.
proof fn lemma_other_offramps(offramps: Seq<OfframpView>, id: i64)
    ensures
        steps::without_offramp(offramps, id) == offramps.filter(
            |x: OfframpView| x.offramp_id != id,
        ),
    decreases offramps.len(),
{
    reveal(Seq::filter);
    if offramps.len() > 0 {
        lemma_other_offramps(offramps.drop_last(), id);
    }
}

/// After an invoice is fulfilled none of its number is left, and every invoice of another
/// number is still there, in the same order. Its amount leaves the liquidity, what is
/// reserved and the cBTC of the script, and all of it goes to the owner.
pub proof fn lemma_fulfill_invoice_effect(
    s: StateView,
    cbtc: i64,
    invoice: InvoiceView,
    owner_address: Seq<char>,
)
    requires
        i64::MIN <= s.total_liquidity - invoice.amount <= i64::MAX,
        i64::MIN <= s.reserved - invoice.amount <= i64::MAX,
        i64::MIN <= cbtc - invoice.amount <= i64::MAX,
    ensures
        ({
            let t = steps::fulfill_invoice(s, cbtc, invoice, owner_address);
            &&& t.state.invoices == s.invoices.filter(
                |x: InvoiceView| x.invoice_id != invoice.invoice_id,
            )
            &&& forall|i: int|
                0 <= i < t.state.invoices.len() ==> (#[trigger] t.state.invoices[i]).invoice_id
                    != invoice.invoice_id
            &&& forall|x: InvoiceView|
                s.invoices.contains(x) && x.invoice_id != invoice.invoice_id ==> (
                #[trigger] t.state.invoices.contains(x))
            &&& s.total_liquidity - t.state.total_liquidity == invoice.amount
            &&& s.reserved - t.state.reserved == invoice.amount
            &&& cbtc - t.script_cbtc == invoice.amount
            &&& t.payout == Some((owner_address, invoice.amount))
            &&& t.state.last_invoice_id == s.last_invoice_id
            &&& t.state.last_offramp_id == s.last_offramp_id
            &&& t.state.offramps == s.offramps
            &&& t.action is FulfillInvoice && t.action->invoice == invoice
        }),
{
    broadcast use vstd::seq_lib::group_filter_ensures;

    lemma_other_invoices(s.invoices, invoice.invoice_id);
}

/// An invoice is cancelled exactly when one of its number is there. Then none of its number
/// is left, and every invoice of another number is still there, in the same order. What the
/// first of its number had reserved no longer is. The cBTC stays where it is.
pub proof fn lemma_cancel_invoice_effect(s: StateView, cbtc: i64, id: i64)
    ensures
        match steps::cancel_invoice(s, cbtc, id) {
            Ok(t) => {
                &&& exists|k: int|
                    {
                        &&& 0 <= k < s.invoices.len()
                        &&& (#[trigger] s.invoices[k]).invoice_id == id
                        &&& forall|i: int|
                            0 <= i < k ==> (#[trigger] s.invoices[i]).invoice_id != id
                        &&& i64::MIN <= s.reserved - s.invoices[k].amount <= i64::MAX
                            ==> s.reserved - t.state.reserved == s.invoices[k].amount
                    }
                &&& t.state.invoices == s.invoices.filter(|x: InvoiceView| x.invoice_id != id)
                &&& forall|i: int|
                    0 <= i < t.state.invoices.len() ==> (#[trigger] t.state.invoices[i]).invoice_id
                        != id
                &&& forall|x: InvoiceView|
                    s.invoices.contains(x) && x.invoice_id != id ==> (
                    #[trigger] t.state.invoices.contains(x))
                &&& t.state.total_liquidity == s.total_liquidity
                &&& t.state.last_invoice_id == s.last_invoice_id
                &&& t.state.last_offramp_id == s.last_offramp_id
                &&& t.state.offramps == s.offramps
                &&& t.script_cbtc == cbtc
                &&& t.payout is None
                &&& t.action is CancelInvoice && t.action->invoice_id == id
            },
            Err(e) => {
                &&& forall|i: int|
                    0 <= i < s.invoices.len() ==> (#[trigger] s.invoices[i]).invoice_id != id
                &&& e == ErrorView::NotFound(
                    "invoice "@ + text::decimal(id as int) + " not found"@,
                )
            },
        },
{
    broadcast use vstd::seq_lib::group_filter_ensures;

    lemma_first_of_number(s.invoices, id);
    lemma_other_invoices(s.invoices, id);
}

/// The first invoice of a number stands before all others of that number.
proof fn lemma_first_of_number(invoices: Seq<InvoiceView>, id: i64)
    ensures
        match steps::first_invoice(invoices, id) {
            Some(invoice) => exists|k: int|
                {
                    &&& 0 <= k < invoices.len()
                    &&& #[trigger] invoices[k] == invoice
                    &&& invoice.invoice_id == id
                    &&& forall|i: int| 0 <= i < k ==> (#[trigger] invoices[i]).invoice_id != id
                },
            None => forall|i: int|
                0 <= i < invoices.len() ==> (#[trigger] invoices[i]).invoice_id != id,
        },
    decreases invoices.len(),
{
    if invoices.len() > 0 && invoices[0].invoice_id != id {
        let rest = invoices.skip(1);
        lemma_first_of_number(rest, id);
        assert forall|i: int| 0 < i < invoices.len() implies #[trigger] invoices[i] == rest[i
            - 1] by {}
        if let Some(invoice) = steps::first_invoice(rest, id) {
            let k = choose|k: int|
                {
                    &&& 0 <= k < rest.len()
                    &&& #[trigger] rest[k] == invoice
                    &&& invoice.invoice_id == id
                    &&& forall|i: int| 0 <= i < k ==> (#[trigger] rest[i]).invoice_id != id
                };
            assert(invoices[k + 1] == invoice);
        }
    }
}

/// A new offramp stands before all others, under the number after the last one, with what
/// the caller gave for it. The liquidity and the cBTC stay as they are. Every positive
/// amount is accepted.
pub proof fn lemma_create_offramp_effect(
    s: StateView,
    cbtc: i64,
    amount: i64,
    payment_hash: Seq<char>,
    refund_address: Seq<char>,
    expires_at: i64,
)
    requires
        0 < amount ==> s.last_offramp_id < i64::MAX,
    ensures
        match steps::create_offramp(s, cbtc, amount, payment_hash, refund_address, expires_at) {
            Ok(t) => {
                &&& 0 < amount
                &&& t.state.last_offramp_id - s.last_offramp_id == 1
                &&& t.state.offramps.len() == s.offramps.len() + 1
                &&& t.state.offramps.skip(1) == s.offramps
                &&& t.state.offramps[0].offramp_id == t.state.last_offramp_id
                &&& t.state.offramps[0].amount == amount
                &&& t.state.offramps[0].payment_hash == payment_hash
                &&& t.state.offramps[0].refund_address == refund_address
                &&& t.state.offramps[0].expires_at == expires_at
                &&& t.state.total_liquidity == s.total_liquidity
                &&& t.state.reserved == s.reserved
                &&& t.state.last_invoice_id == s.last_invoice_id
                &&& t.state.invoices == s.invoices
                &&& t.script_cbtc == cbtc
                &&& t.payout is None
                &&& t.action is CreateOfframp
                &&& t.action->CreateOfframp_amount == amount
                &&& t.action->payment_hash == payment_hash
                &&& t.action->refund_address == refund_address
                &&& t.action->CreateOfframp_expires_at == expires_at
            },
            Err(e) => amount <= 0 && e == ErrorView::Parse("offramp amount must be positive"@),
        },
{
    if 0 < amount {
        let t = steps::create_offramp(
            s,
            cbtc,
            amount,
            payment_hash,
            refund_address,
            expires_at,
        )->Ok_0;
        assert(t.state.offramps.skip(1) =~= s.offramps);
    }
}

/// After an offramp is fulfilled none of its number is left, and every offramp of another
/// number is still there, in the same order. Its amount goes into the liquidity and into the
/// cBTC of the script.
pub proof fn lemma_fulfill_offramp_effect(s: StateView, cbtc: i64, offramp: OfframpView)
    requires
        i64::MIN <= s.total_liquidity + offramp.amount <= i64::MAX,
        i64::MIN <= cbtc + offramp.amount <= i64::MAX,
    ensures
        ({
            let t = steps::fulfill_offramp(s, cbtc, offramp);
            &&& t.state.offramps == s.offramps.filter(
                |x: OfframpView| x.offramp_id != offramp.offramp_id,
            )
            &&& forall|i: int|
                0 <= i < t.state.offramps.len() ==> (#[trigger] t.state.offramps[i]).offramp_id
                    != offramp.offramp_id
            &&& forall|x: OfframpView|
                s.offramps.contains(x) && x.offramp_id != offramp.offramp_id ==> (
                #[trigger] t.state.offramps.contains(x))
            &&& t.state.total_liquidity - s.total_liquidity == offramp.amount
            &&& t.script_cbtc - cbtc == offramp.amount
            &&& t.state.reserved == s.reserved
            &&& t.state.last_invoice_id == s.last_invoice_id
            &&& t.state.invoices == s.invoices
            &&& t.state.last_offramp_id == s.last_offramp_id
            &&& t.payout is None
            &&& t.action is FulfillOfframp && t.action->offramp == offramp
        }),
{
    broadcast use vstd::seq_lib::group_filter_ensures;

    lemma_other_offramps(s.offramps, offramp.offramp_id);
}

/// An offramp is cancelled exactly when one of its number is there. Then none of its number
/// is left, and every offramp of another number is still there, in the same order. Nothing
/// else changes.
pub proof fn lemma_cancel_offramp_effect(s: StateView, cbtc: i64, id: i64)
    ensures
        match steps::cancel_offramp(s, cbtc, id) {
            Ok(t) => {
                &&& exists|k: int|
                    0 <= k < s.offramps.len() && (#[trigger] s.offramps[k]).offramp_id == id
                &&& t.state.offramps == s.offramps.filter(|x: OfframpView| x.offramp_id != id)
                &&& forall|i: int|
                    0 <= i < t.state.offramps.len() ==> (#[trigger] t.state.offramps[i]).offramp_id
                        != id
                &&& forall|x: OfframpView|
                    s.offramps.contains(x) && x.offramp_id != id ==> (
                    #[trigger] t.state.offramps.contains(x))
                &&& t.state.total_liquidity == s.total_liquidity
                &&& t.state.reserved == s.reserved
                &&& t.state.last_invoice_id == s.last_invoice_id
                &&& t.state.invoices == s.invoices
                &&& t.state.last_offramp_id == s.last_offramp_id
                &&& t.script_cbtc == cbtc
                &&& t.payout is None
                &&& t.action is CancelOfframp && t.action->offramp_id == id
            },
            Err(e) => {
                &&& forall|i: int|
                    0 <= i < s.offramps.len() ==> (#[trigger] s.offramps[i]).offramp_id != id
                &&& e == ErrorView::NotFound(
                    "offramp "@ + text::decimal(id as int) + " not found"@,
                )
            },
        },
{
    broadcast use vstd::seq_lib::group_filter_ensures;

    lemma_other_offramps(s.offramps, id);
}

/// The model of a step holds what the step holds: each number under its own name, and the
/// payout with its address and its amount.
pub proof fn lemma_step_model(step: ContractStep)
    ensures
        step@.state == step.state@,
        step@.action == step.action@,
        step@.script_cbtc == step.script_cbtc,
        step.payout is None <==> step@.payout is None,
        step.payout matches Some(p) ==> step@.payout == Some((p.0@, p.1)),
        step@.state.total_liquidity == step.state.total_liquidity,
        step@.state.reserved == step.state.reserved,
        step@.state.last_invoice_id == step.state.last_invoice_id,
        step@.state.last_offramp_id == step.state.last_offramp_id,
{
}

} // verus!

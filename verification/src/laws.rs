//! Laws of the pool: what every operation keeps, and what one operation undoes of another.

use crate::contract::ContextView;
use crate::error::ErrorView;
use crate::steps::StepView;
use crate::tx_builder::Draft;
use crate::types::{InvoiceView, OfframpView, StateView};
use crate::{contract, steps, tx_builder};
use vstd::prelude::*;

verus! {

/// An operation of the contract.
pub enum Operation {
    Deposit { amount: i64 },
    Withdraw { amount: i64 },
    CreateInvoice { amount: i64, owner: Seq<char>, timestamp: i64, expires_at: i64 },
    FulfillInvoice { invoice: InvoiceView, owner_address: Seq<char> },
    CancelInvoice { invoice_id: i64 },
    CreateOfframp {
        amount: i64,
        payment_hash: Seq<char>,
        refund_address: Seq<char>,
        expires_at: i64,
    },
    FulfillOfframp { offramp: OfframpView },
    CancelOfframp { offramp_id: i64 },
}

/// The step that an operation makes, or why it is refused.
pub open spec fn run(s: StateView, cbtc: i64, op: Operation) -> Result<StepView, ErrorView> {
    match op {
        Operation::Deposit { amount } => steps::deposit(s, cbtc, amount),
        Operation::Withdraw { amount } => steps::withdraw(s, cbtc, amount),
        Operation::CreateInvoice { amount, owner, timestamp, expires_at } => steps::create_invoice(
            s,
            cbtc,
            amount,
            owner,
            timestamp,
            expires_at,
        ),
        Operation::FulfillInvoice { invoice, owner_address } => Ok(
            steps::fulfill_invoice(s, cbtc, invoice, owner_address),
        ),
        Operation::CancelInvoice { invoice_id } => steps::cancel_invoice(s, cbtc, invoice_id),
        Operation::CreateOfframp { amount, payment_hash, refund_address, expires_at } => {
            steps::create_offramp(s, cbtc, amount, payment_hash, refund_address, expires_at)
        },
        Operation::FulfillOfframp { offramp } => Ok(steps::fulfill_offramp(s, cbtc, offramp)),
        Operation::CancelOfframp { offramp_id } => steps::cancel_offramp(s, cbtc, offramp_id),
    }
}

/// Whether the numbers of an operation stay within the range of `i64`.
pub open spec fn op_fits(s: StateView, cbtc: i64, op: Operation) -> bool {
    match op {
        Operation::Deposit { amount } => amount > 0 ==> steps::fits(s.total_liquidity + amount)
            && steps::fits(cbtc + amount),
        Operation::Withdraw { amount } => steps::withdraw_fits(s, cbtc, amount),
        Operation::CreateInvoice { amount, .. } => steps::create_invoice_fits(s, amount),
        Operation::FulfillInvoice { invoice, .. } => steps::fits(s.total_liquidity - invoice.amount)
            && steps::fits(s.reserved - invoice.amount) && steps::fits(cbtc - invoice.amount),
        Operation::CancelInvoice { invoice_id } => match steps::first_invoice(
            s.invoices,
            invoice_id,
        ) {
            Some(invoice) => steps::fits(s.reserved - invoice.amount),
            None => true,
        },
        Operation::CreateOfframp { amount, .. } => amount > 0 ==> steps::fits(
            s.last_offramp_id + 1,
        ),
        Operation::FulfillOfframp { offramp } => steps::fits(s.total_liquidity + offramp.amount)
            && steps::fits(cbtc + offramp.amount),
        Operation::CancelOfframp { .. } => true,
    }
}

/// Whether an operation fulfills nothing but what the pool holds.
pub open spec fn op_is_own(s: StateView, op: Operation) -> bool {
    match op {
        Operation::FulfillInvoice { invoice, .. } => s.invoices.contains(invoice),
        Operation::FulfillOfframp { offramp } => s.offramps.contains(offramp),
        _ => true,
    }
}

/// The amounts of some invoices together.
pub open spec fn amounts_sum(invoices: Seq<InvoiceView>) -> int
    decreases invoices.len(),
{
    if invoices.len() == 0 {
        0
    } else {
        amounts_sum(invoices.drop_last()) + invoices.last().amount
    }
}

/// Whether some invoices have positive amounts, and numbers that are different and not
/// above the last one that was given out.
pub open spec fn invoices_sound(invoices: Seq<InvoiceView>, last_id: i64) -> bool {
    &&& forall|i: int|
        0 <= i < invoices.len() ==> (#[trigger] invoices[i]).amount > 0 && invoices[i].invoice_id
            <= last_id
    &&& forall|i: int, j: int|
        0 <= i < j < invoices.len() ==> (#[trigger] invoices[i]).invoice_id != (
        #[trigger] invoices[j]).invoice_id
}

/// Whether some offramps have positive amounts, and numbers that are different and not
/// above the last one that was given out.
pub open spec fn offramps_sound(offramps: Seq<OfframpView>, last_id: i64) -> bool {
    &&& forall|i: int|
        0 <= i < offramps.len() ==> (#[trigger] offramps[i]).amount > 0 && offramps[i].offramp_id
            <= last_id
    &&& forall|i: int, j: int|
        0 <= i < j < offramps.len() ==> (#[trigger] offramps[i]).offramp_id != (
        #[trigger] offramps[j]).offramp_id
}

/// Whether a pool state is sound: what is reserved is what the invoices amount to, and the
/// pool can cover it.
pub open spec fn is_sound(s: StateView) -> bool {
    &&& s.reserved == amounts_sum(s.invoices)
    &&& s.reserved <= s.total_liquidity
    &&& invoices_sound(s.invoices, s.last_invoice_id)
    &&& offramps_sound(s.offramps, s.last_offramp_id)
}

/// Whether the books of a pool are in order: what is reserved is what the invoices amount to, it
/// is not negative and the pool can cover it, and the invoices have numbers that are different
/// and not above the last one that was given out. Nothing is asked of the offramps, nor of the
/// amounts one by one.
pub open spec fn is_balanced(s: StateView) -> bool {
    &&& s.reserved == amounts_sum(s.invoices)
    &&& 0 <= s.reserved <= s.total_liquidity
    &&& forall|i: int|
        0 <= i < s.invoices.len() ==> (#[trigger] s.invoices[i]).invoice_id <= s.last_invoice_id
    &&& forall|i: int, j: int|
        0 <= i < j < s.invoices.len() ==> (#[trigger] s.invoices[i]).invoice_id != (
        #[trigger] s.invoices[j]).invoice_id
}

/// Whether an operation takes neither an invoice away nor cBTC in for an offramp.
pub open spec fn op_keeps_invoices(op: Operation) -> bool {
    match op {
        Operation::FulfillInvoice { .. } => false,
        Operation::CancelInvoice { .. } => false,
        Operation::FulfillOfframp { .. } => false,
        _ => true,
    }
}

/// The cBTC that an operation brings to the script, beside what is paid out.
pub open spec fn inflow(op: Operation) -> int {
    match op {
        Operation::Deposit { amount } => amount as int,
        Operation::Withdraw { amount } => -amount,
        Operation::FulfillOfframp { offramp } => offramp.amount as int,
        _ => 0,
    }
}

/// The cBTC that a step pays out.
pub open spec fn paid_out(step: StepView) -> int {
    match step.payout {
        Some((_, cbtc)) => cbtc as int,
        None => 0,
    }
}

/// The script holds cBTC beside the total liquidity, and no operation changes how much: in
/// particular, a pool that is backed in full stays so.
pub proof fn lemma_backing(s: StateView, cbtc: i64, op: Operation)
    requires
        op_fits(s, cbtc, op),
        run(s, cbtc, op) is Ok,
    ensures
        run(s, cbtc, op)->Ok_0.script_cbtc - run(s, cbtc, op)->Ok_0.state.total_liquidity == cbtc
            - s.total_liquidity,
{
}

/// No cBTC is lost or made: what the script holds after an operation and what is paid out
/// is what it held before and what the operation brings.
pub proof fn lemma_conservation(s: StateView, cbtc: i64, op: Operation)
    requires
        op_fits(s, cbtc, op),
        run(s, cbtc, op) is Ok,
    ensures
        run(s, cbtc, op)->Ok_0.script_cbtc + paid_out(run(s, cbtc, op)->Ok_0) == cbtc + inflow(op),
{
}

/// A sound pool has nothing negative: neither what is reserved nor what is available.
pub proof fn lemma_sound_available(s: StateView)
    requires
        is_sound(s),
    ensures
        0 <= s.reserved,
        0 <= s.available(),
{
    lemma_sum_positive(s.invoices, s.last_invoice_id);
}

/// Positive amounts have a sum that is not negative.
proof fn lemma_sum_positive(invoices: Seq<InvoiceView>, last_id: i64)
    requires
        invoices_sound(invoices, last_id),
    ensures
        0 <= amounts_sum(invoices),
    decreases invoices.len(),
{
    if invoices.len() > 0 {
        let before = invoices.drop_last();
        assert forall|i: int| 0 <= i < before.len() implies (#[trigger] before[i]).amount > 0
            && before[i].invoice_id <= last_id by {
            assert(before[i] == invoices[i]);
        }
        assert forall|i: int, j: int| 0 <= i < j < before.len() implies (
        #[trigger] before[i]).invoice_id != (#[trigger] before[j]).invoice_id by {
            assert(before[i] == invoices[i] && before[j] == invoices[j]);
        }
        lemma_sum_positive(before, last_id);
        assert(invoices.last() == invoices[invoices.len() - 1]);
    }
}

/// The first invoice of a number is an invoice of that number.
proof fn lemma_first_invoice(invoices: Seq<InvoiceView>, id: i64)
    ensures
        match steps::first_invoice(invoices, id) {
            Some(x) => invoices.contains(x) && x.invoice_id == id,
            None => true,
        },
    decreases invoices.len(),
{
    if invoices.len() > 0 {
        if invoices[0].invoice_id == id {
            assert(invoices.contains(invoices[0]));
        } else {
            lemma_first_invoice(invoices.skip(1), id);
            if let Some(x) = steps::first_invoice(invoices.skip(1), id) {
                let i = choose|i: int|
                    0 <= i < invoices.skip(1).len() && invoices.skip(1)[i] == x;
                assert(invoices[i + 1] == x);
            }
        }
    }
}

/// What is left without the invoices of a number.
proof fn lemma_without_invoice(invoices: Seq<InvoiceView>, id: i64, last_id: i64)
    requires
        invoices_sound(invoices, last_id),
    ensures
        invoices_sound(steps::without_invoice(invoices, id), last_id),
        forall|x: InvoiceView| #[trigger]
            steps::without_invoice(invoices, id).contains(x) ==> invoices.contains(x)
                && x.invoice_id != id,
        (forall|i: int| 0 <= i < invoices.len() ==> (#[trigger] invoices[i]).invoice_id != id)
            ==> steps::without_invoice(invoices, id) == invoices,
        forall|i: int|
            0 <= i < invoices.len() && (#[trigger] invoices[i]).invoice_id == id ==> amounts_sum(
                steps::without_invoice(invoices, id),
            ) == amounts_sum(invoices) - invoices[i].amount,
    decreases invoices.len(),
{
    if invoices.len() > 0 {
        let before = invoices.drop_last();
        let last = invoices.last();
        let kept = steps::without_invoice(before, id);
        assert forall|i: int| 0 <= i < before.len() implies (#[trigger] before[i]).amount > 0
            && before[i].invoice_id <= last_id && before[i].invoice_id != last.invoice_id by {
            assert(before[i] == invoices[i]);
            assert(last == invoices[invoices.len() - 1]);
        }
        assert forall|i: int, j: int| 0 <= i < j < before.len() implies (
        #[trigger] before[i]).invoice_id != (#[trigger] before[j]).invoice_id by {
            assert(before[i] == invoices[i] && before[j] == invoices[j]);
        }
        lemma_without_invoice(before, id, last_id);
        assert forall|x: InvoiceView| #[trigger] kept.contains(x) implies invoices.contains(x)
            && x.invoice_id != last.invoice_id by {
            let i = choose|i: int| 0 <= i < before.len() && before[i] == x;
            assert(invoices[i] == x);
        }
        if last.invoice_id == id {
            assert(kept == before);
        } else {
            let all = kept.push(last);
            assert(all.drop_last() =~= kept);
            assert forall|i: int, j: int| 0 <= i < j < all.len() implies (
            #[trigger] all[i]).invoice_id != (#[trigger] all[j]).invoice_id by {
                assert(all[i] == kept[i]);
                assert(kept.contains(kept[i]));
                if j < kept.len() {
                    assert(all[j] == kept[j]);
                }
            }
            assert forall|i: int| 0 <= i < all.len() implies (#[trigger] all[i]).amount > 0
                && all[i].invoice_id <= last_id by {
                if i < kept.len() {
                    assert(all[i] == kept[i]);
                } else {
                    assert(all[i] == invoices[invoices.len() - 1]);
                }
            }
            assert forall|x: InvoiceView| #[trigger] all.contains(x) implies invoices.contains(x)
                && x.invoice_id != id by {
                let i = choose|i: int| 0 <= i < all.len() && all[i] == x;
                if i < kept.len() {
                    assert(kept.contains(kept[i]));
                } else {
                    assert(invoices[invoices.len() - 1] == x);
                }
            }
            if forall|i: int| 0 <= i < invoices.len() ==> (#[trigger] invoices[i]).invoice_id
                != id {
                assert forall|i: int| 0 <= i < before.len() implies (
                #[trigger] before[i]).invoice_id != id by {
                    assert(before[i] == invoices[i]);
                }
                assert(before.push(last) =~= invoices);
            }
            assert forall|i: int|
                0 <= i < invoices.len() && (#[trigger] invoices[i]).invoice_id
                    == id implies amounts_sum(all) == amounts_sum(invoices)
                - invoices[i].amount by {
                assert(before[i] == invoices[i]);
            }
        }
    }
}

/// What is left without the offramps of a number.
proof fn lemma_without_offramp(offramps: Seq<OfframpView>, id: i64, last_id: i64)
    requires
        offramps_sound(offramps, last_id),
    ensures
        offramps_sound(steps::without_offramp(offramps, id), last_id),
        forall|x: OfframpView| #[trigger]
            steps::without_offramp(offramps, id).contains(x) ==> offramps.contains(x)
                && x.offramp_id != id,
        (forall|i: int| 0 <= i < offramps.len() ==> (#[trigger] offramps[i]).offramp_id != id)
            ==> steps::without_offramp(offramps, id) == offramps,
    decreases offramps.len(),
{
    if offramps.len() > 0 {
        let before = offramps.drop_last();
        let last = offramps.last();
        let kept = steps::without_offramp(before, id);
        assert forall|i: int| 0 <= i < before.len() implies (#[trigger] before[i]).amount > 0
            && before[i].offramp_id <= last_id && before[i].offramp_id != last.offramp_id by {
            assert(before[i] == offramps[i]);
            assert(last == offramps[offramps.len() - 1]);
        }
        assert forall|i: int, j: int| 0 <= i < j < before.len() implies (
        #[trigger] before[i]).offramp_id != (#[trigger] before[j]).offramp_id by {
            assert(before[i] == offramps[i] && before[j] == offramps[j]);
        }
        lemma_without_offramp(before, id, last_id);
        assert forall|x: OfframpView| #[trigger] kept.contains(x) implies offramps.contains(x)
            && x.offramp_id != last.offramp_id by {
            let i = choose|i: int| 0 <= i < before.len() && before[i] == x;
            assert(offramps[i] == x);
        }
        if last.offramp_id == id {
            assert(kept == before);
        } else {
            let all = kept.push(last);
            assert forall|i: int, j: int| 0 <= i < j < all.len() implies (
            #[trigger] all[i]).offramp_id != (#[trigger] all[j]).offramp_id by {
                assert(all[i] == kept[i]);
                assert(kept.contains(kept[i]));
                if j < kept.len() {
                    assert(all[j] == kept[j]);
                }
            }
            assert forall|i: int| 0 <= i < all.len() implies (#[trigger] all[i]).amount > 0
                && all[i].offramp_id <= last_id by {
                if i < kept.len() {
                    assert(all[i] == kept[i]);
                } else {
                    assert(all[i] == offramps[offramps.len() - 1]);
                }
            }
            assert forall|x: OfframpView| #[trigger] all.contains(x) implies offramps.contains(x)
                && x.offramp_id != id by {
                let i = choose|i: int| 0 <= i < all.len() && all[i] == x;
                if i < kept.len() {
                    assert(kept.contains(kept[i]));
                } else {
                    assert(offramps[offramps.len() - 1] == x);
                }
            }
            if forall|i: int| 0 <= i < offramps.len() ==> (#[trigger] offramps[i]).offramp_id
                != id {
                assert forall|i: int| 0 <= i < before.len() implies (
                #[trigger] before[i]).offramp_id != id by {
                    assert(before[i] == offramps[i]);
                }
                assert(before.push(last) =~= offramps);
            }
        }
    }
}

/// An invoice in front of others adds its amount to theirs.
proof fn lemma_sum_front(x: InvoiceView, invoices: Seq<InvoiceView>)
    ensures
        amounts_sum(seq![x] + invoices) == x.amount + amounts_sum(invoices),
    decreases invoices.len(),
{
    let all = seq![x] + invoices;
    if invoices.len() > 0 {
        lemma_sum_front(x, invoices.drop_last());
        assert(all.drop_last() =~= seq![x] + invoices.drop_last());
        assert(all.last() == invoices.last());
    } else {
        assert(all.drop_last() =~= Seq::empty());
        assert(amounts_sum(Seq::<InvoiceView>::empty()) == 0);
        assert(all.last() == x);
    }
}

/// Taking away the invoice in front leaves the others, if none has its number.
proof fn lemma_without_front_invoice(x: InvoiceView, invoices: Seq<InvoiceView>)
    requires
        forall|i: int|
            0 <= i < invoices.len() ==> (#[trigger] invoices[i]).invoice_id != x.invoice_id,
    ensures
        steps::without_invoice(seq![x] + invoices, x.invoice_id) == invoices,
    decreases invoices.len(),
{
    let all = seq![x] + invoices;
    if invoices.len() > 0 {
        let before = invoices.drop_last();
        assert forall|i: int| 0 <= i < before.len() implies (#[trigger] before[i]).invoice_id
            != x.invoice_id by {
            assert(before[i] == invoices[i]);
        }
        lemma_without_front_invoice(x, before);
        assert(all.drop_last() =~= seq![x] + before);
        assert(all.last() == invoices[invoices.len() - 1]);
        assert(before.push(invoices.last()) =~= invoices);
    } else {
        assert(all.drop_last() =~= Seq::empty());
        assert(all.last() == x);
        assert(steps::without_invoice(all.drop_last(), x.invoice_id) == Seq::<
            InvoiceView,
        >::empty());
        assert(invoices =~= Seq::empty());
    }
}

/// Taking away the offramp in front leaves the others, if none has its number.
proof fn lemma_without_front_offramp(x: OfframpView, offramps: Seq<OfframpView>)
    requires
        forall|i: int|
            0 <= i < offramps.len() ==> (#[trigger] offramps[i]).offramp_id != x.offramp_id,
    ensures
        steps::without_offramp(seq![x] + offramps, x.offramp_id) == offramps,
    decreases offramps.len(),
{
    let all = seq![x] + offramps;
    if offramps.len() > 0 {
        let before = offramps.drop_last();
        assert forall|i: int| 0 <= i < before.len() implies (#[trigger] before[i]).offramp_id
            != x.offramp_id by {
            assert(before[i] == offramps[i]);
        }
        lemma_without_front_offramp(x, before);
        assert(all.drop_last() =~= seq![x] + before);
        assert(all.last() == offramps[offramps.len() - 1]);
        assert(before.push(offramps.last()) =~= offramps);
    } else {
        assert(all.drop_last() =~= Seq::empty());
        assert(all.last() == x);
        assert(steps::without_offramp(all.drop_last(), x.offramp_id) == Seq::<
            OfframpView,
        >::empty());
        assert(offramps =~= Seq::empty());
    }
}

/// Every operation keeps a pool sound, as long as it fulfills nothing but what the pool
/// holds.
pub proof fn lemma_sound(s: StateView, cbtc: i64, op: Operation)
    requires
        is_sound(s),
        op_fits(s, cbtc, op),
        op_is_own(s, op),
        run(s, cbtc, op) is Ok,
    ensures
        is_sound(run(s, cbtc, op)->Ok_0.state),
{
    let t = run(s, cbtc, op)->Ok_0.state;
    match op {
        Operation::CreateInvoice { amount, owner, timestamp, expires_at } => {
            let x = t.invoices[0];
            assert(t.invoices =~= seq![x] + s.invoices);
            lemma_sum_front(x, s.invoices);
            assert forall|i: int| 0 <= i < t.invoices.len() implies (
            #[trigger] t.invoices[i]).amount > 0 && t.invoices[i].invoice_id
                <= t.last_invoice_id by {
                if i > 0 {
                    assert(t.invoices[i] == s.invoices[i - 1]);
                }
            }
            assert forall|i: int, j: int| 0 <= i < j < t.invoices.len() implies (
            #[trigger] t.invoices[i]).invoice_id != (#[trigger] t.invoices[j]).invoice_id by {
                assert(t.invoices[j] == s.invoices[j - 1]);
                if i > 0 {
                    assert(t.invoices[i] == s.invoices[i - 1]);
                }
            }
        },
        Operation::FulfillInvoice { invoice, .. } => {
            let i = choose|i: int| 0 <= i < s.invoices.len() && s.invoices[i] == invoice;
            assert(s.invoices[i].invoice_id == invoice.invoice_id);
            lemma_without_invoice(s.invoices, invoice.invoice_id, s.last_invoice_id);
        },
        Operation::CancelInvoice { invoice_id } => {
            lemma_first_invoice(s.invoices, invoice_id);
            let x = steps::first_invoice(s.invoices, invoice_id)->Some_0;
            let i = choose|i: int| 0 <= i < s.invoices.len() && s.invoices[i] == x;
            assert(s.invoices[i].invoice_id == invoice_id);
            lemma_without_invoice(s.invoices, invoice_id, s.last_invoice_id);
        },
        Operation::CreateOfframp { amount, payment_hash, refund_address, expires_at } => {
            assert forall|i: int| 0 <= i < t.offramps.len() implies (
            #[trigger] t.offramps[i]).amount > 0 && t.offramps[i].offramp_id
                <= t.last_offramp_id by {
                if i > 0 {
                    assert(t.offramps[i] == s.offramps[i - 1]);
                }
            }
            assert forall|i: int, j: int| 0 <= i < j < t.offramps.len() implies (
            #[trigger] t.offramps[i]).offramp_id != (#[trigger] t.offramps[j]).offramp_id by {
                assert(t.offramps[j] == s.offramps[j - 1]);
                if i > 0 {
                    assert(t.offramps[i] == s.offramps[i - 1]);
                }
            }
        },
        Operation::FulfillOfframp { offramp } => {
            let i = choose|i: int| 0 <= i < s.offramps.len() && s.offramps[i] == offramp;
            assert(s.offramps[i].amount > 0);
            lemma_without_offramp(s.offramps, offramp.offramp_id, s.last_offramp_id);
        },
        Operation::CancelOfframp { offramp_id } => {
            lemma_without_offramp(s.offramps, offramp_id, s.last_offramp_id);
        },
        _ => {},
    }
}

/// Every operation that keeps the invoices that there are, keeps the books in order.
pub proof fn lemma_balanced(s: StateView, cbtc: i64, op: Operation)
    requires
        is_balanced(s),
        op_fits(s, cbtc, op),
        op_keeps_invoices(op),
        run(s, cbtc, op) is Ok,
    ensures
        is_balanced(run(s, cbtc, op)->Ok_0.state),
{
    if let Operation::CreateInvoice { amount, owner, timestamp, expires_at } = op {
        lemma_new_invoice_balanced(s, cbtc, amount, owner, timestamp, expires_at);
    }
}

/// A new invoice keeps the books in order, whatever the offramps and the amounts of the others,
/// and gets a number that none of the others has.
pub proof fn lemma_new_invoice_balanced(
    s: StateView,
    cbtc: i64,
    amount: i64,
    owner: Seq<char>,
    timestamp: i64,
    expires_at: i64,
)
    requires
        is_balanced(s),
        steps::create_invoice_fits(s, amount),
        steps::create_invoice(s, cbtc, amount, owner, timestamp, expires_at) is Ok,
    ensures
        ({
            let t = steps::create_invoice(
                s,
                cbtc,
                amount,
                owner,
                timestamp,
                expires_at,
            )->Ok_0.state;
            is_balanced(t) && t.invoices[0].invoice_id == t.last_invoice_id && forall|i: int|
                0 <= i < s.invoices.len() ==> (#[trigger] s.invoices[i]).invoice_id
                    != t.last_invoice_id
        }),
{
    let t = steps::create_invoice(s, cbtc, amount, owner, timestamp, expires_at)->Ok_0.state;
    let x = t.invoices[0];
    assert(t.invoices =~= seq![x] + s.invoices);
    lemma_sum_front(x, s.invoices);
    assert forall|i: int| 0 <= i < t.invoices.len() implies (#[trigger] t.invoices[i]).invoice_id
        <= t.last_invoice_id by {
        if i > 0 {
            assert(t.invoices[i] == s.invoices[i - 1]);
        }
    }
    assert forall|i: int, j: int| 0 <= i < j < t.invoices.len() implies (
    #[trigger] t.invoices[i]).invoice_id != (#[trigger] t.invoices[j]).invoice_id by {
        assert(t.invoices[j] == s.invoices[j - 1]);
        if i > 0 {
            assert(t.invoices[i] == s.invoices[i - 1]);
        }
    }
}

/// Every transaction that creates an invoice for a pool with its books in order carries a pool
/// state with its books in order, in which the invoice has a number of its own.
pub proof fn lemma_create_invoice_tx(
    ctx: ContextView,
    s: StateView,
    amount: i64,
    owner: Seq<char>,
    timestamp: i64,
    expires_at: i64,
    hex: Seq<char>,
)
    requires
        is_balanced(s),
        steps::create_invoice_fits(s, amount),
        contract::outcome_yields(
            ctx,
            steps::create_invoice(s, ctx.script_cbtc, amount, owner, timestamp, expires_at),
            Ok(hex),
        ),
    ensures
        ({
            let step = steps::create_invoice(
                s,
                ctx.script_cbtc,
                amount,
                owner,
                timestamp,
                expires_at,
            );
            &&& step is Ok
            &&& is_balanced(step->Ok_0.state)
            &&& forall|i: int|
                0 <= i < s.invoices.len() ==> (#[trigger] s.invoices[i]).invoice_id
                    != step->Ok_0.state.last_invoice_id
            &&& exists|done: Draft| #[trigger]
                tx_builder::signs(done, Ok(hex)) && contract::has_shape(ctx, step->Ok_0, done)
        }),
{
    let step = steps::create_invoice(s, ctx.script_cbtc, amount, owner, timestamp, expires_at);
    lemma_new_invoice_balanced(s, ctx.script_cbtc, amount, owner, timestamp, expires_at);
    contract::lemma_transaction_shape(ctx, step->Ok_0, hex);
}

/// Withdrawing what was deposited gives the pool back as it was.
pub proof fn lemma_deposit_withdraw(s: StateView, cbtc: i64, amount: i64)
    requires
        amount > 0,
        s.available() >= 0,
        steps::fits(s.total_liquidity + amount),
        steps::fits(cbtc + amount),
    ensures
        ({
            let first = steps::deposit(s, cbtc, amount)->Ok_0;
            let second = steps::withdraw(first.state, first.script_cbtc, amount);
            second is Ok && second->Ok_0.state == s && second->Ok_0.script_cbtc == cbtc
        }),
{
}

/// Cancelling the invoice that was created last gives the pool back as it was, but for the
/// number that was given out.
pub proof fn lemma_create_cancel_invoice(
    s: StateView,
    cbtc: i64,
    amount: i64,
    owner: Seq<char>,
    timestamp: i64,
    expires_at: i64,
)
    requires
        0 < amount <= s.available(),
        steps::fits(s.last_invoice_id + 1),
        steps::fits(s.reserved + amount),
        forall|i: int|
            0 <= i < s.invoices.len() ==> (#[trigger] s.invoices[i]).invoice_id
                <= s.last_invoice_id,
    ensures
        ({
            let first = steps::create_invoice(
                s,
                cbtc,
                amount,
                owner,
                timestamp,
                expires_at,
            )->Ok_0;
            let id = first.state.last_invoice_id;
            let second = steps::cancel_invoice(first.state, first.script_cbtc, id);
            second is Ok && second->Ok_0.state == (StateView { last_invoice_id: id, ..s })
                && second->Ok_0.script_cbtc == cbtc
        }),
{
    let first = steps::create_invoice(s, cbtc, amount, owner, timestamp, expires_at)->Ok_0;
    let x = first.state.invoices[0];
    assert(first.state.invoices =~= seq![x] + s.invoices);
    lemma_without_front_invoice(x, s.invoices);
}

/// A transaction that cancels the invoice that another one has created carries the pool state
/// from before, but for the number that was given out, and leaves as much cBTC at the script.
pub proof fn lemma_create_cancel_invoice_txs(
    ctx: ContextView,
    s: StateView,
    amount: i64,
    owner: Seq<char>,
    timestamp: i64,
    expires_at: i64,
    hex: Seq<char>,
    later: ContextView,
    later_hex: Seq<char>,
)
    requires
        forall|i: int|
            0 <= i < s.invoices.len() ==> (#[trigger] s.invoices[i]).invoice_id
                <= s.last_invoice_id,
        steps::create_invoice_fits(s, amount),
        contract::outcome_yields(
            ctx,
            steps::create_invoice(s, ctx.script_cbtc, amount, owner, timestamp, expires_at),
            Ok(hex),
        ),
        ({
            let first = steps::create_invoice(
                s,
                ctx.script_cbtc,
                amount,
                owner,
                timestamp,
                expires_at,
            )->Ok_0;
            later.script_cbtc == first.script_cbtc && contract::outcome_yields(
                later,
                steps::cancel_invoice(
                    first.state,
                    later.script_cbtc,
                    first.state.last_invoice_id,
                ),
                Ok(later_hex),
            )
        }),
    ensures
        ({
            let first = steps::create_invoice(
                s,
                ctx.script_cbtc,
                amount,
                owner,
                timestamp,
                expires_at,
            )->Ok_0;
            let second = steps::cancel_invoice(
                first.state,
                later.script_cbtc,
                first.state.last_invoice_id,
            );
            &&& second is Ok
            &&& second->Ok_0.state == (StateView {
                last_invoice_id: (s.last_invoice_id + 1) as i64,
                ..s
            })
            &&& second->Ok_0.state.available() == s.available()
            &&& second->Ok_0.script_cbtc == ctx.script_cbtc
            &&& exists|done: Draft| #[trigger]
                tx_builder::signs(done, Ok(later_hex)) && contract::has_shape(
                    later,
                    second->Ok_0,
                    done,
                )
        }),
{
    let first = steps::create_invoice(
        s,
        ctx.script_cbtc,
        amount,
        owner,
        timestamp,
        expires_at,
    )->Ok_0;
    lemma_create_cancel_invoice(s, ctx.script_cbtc, amount, owner, timestamp, expires_at);
    let second = steps::cancel_invoice(
        first.state,
        later.script_cbtc,
        first.state.last_invoice_id,
    );
    contract::lemma_transaction_shape(later, second->Ok_0, later_hex);
}

/// Fulfilling the invoice that was created last takes its amount out of the pool for its
/// owner, and leaves everything else as it was but for the number that was given out.
pub proof fn lemma_create_fulfill_invoice(
    s: StateView,
    cbtc: i64,
    amount: i64,
    owner: Seq<char>,
    timestamp: i64,
    expires_at: i64,
    owner_address: Seq<char>,
)
    requires
        0 < amount <= s.available(),
        steps::fits(s.last_invoice_id + 1),
        steps::fits(s.reserved + amount),
        steps::fits(s.total_liquidity - amount),
        steps::fits(cbtc - amount),
        forall|i: int|
            0 <= i < s.invoices.len() ==> (#[trigger] s.invoices[i]).invoice_id
                <= s.last_invoice_id,
    ensures
        ({
            let first = steps::create_invoice(
                s,
                cbtc,
                amount,
                owner,
                timestamp,
                expires_at,
            )->Ok_0;
            let second = steps::fulfill_invoice(
                first.state,
                first.script_cbtc,
                first.state.invoices[0],
                owner_address,
            );
            second.state == (StateView {
                total_liquidity: (s.total_liquidity - amount) as i64,
                last_invoice_id: first.state.last_invoice_id,
                ..s
            }) && second.script_cbtc == cbtc - amount && second.payout == Some(
                (owner_address, amount),
            )
        }),
{
    let first = steps::create_invoice(s, cbtc, amount, owner, timestamp, expires_at)->Ok_0;
    let x = first.state.invoices[0];
    assert(first.state.invoices =~= seq![x] + s.invoices);
    lemma_without_front_invoice(x, s.invoices);
}

/// Cancelling the offramp that was created last gives the pool back as it was, but for the
/// number that was given out.
pub proof fn lemma_create_cancel_offramp(
    s: StateView,
    cbtc: i64,
    amount: i64,
    payment_hash: Seq<char>,
    refund_address: Seq<char>,
    expires_at: i64,
)
    requires
        0 < amount,
        steps::fits(s.last_offramp_id + 1),
        forall|i: int|
            0 <= i < s.offramps.len() ==> (#[trigger] s.offramps[i]).offramp_id
                <= s.last_offramp_id,
    ensures
        ({
            let first = steps::create_offramp(
                s,
                cbtc,
                amount,
                payment_hash,
                refund_address,
                expires_at,
            )->Ok_0;
            let id = first.state.last_offramp_id;
            let second = steps::cancel_offramp(first.state, first.script_cbtc, id);
            second is Ok && second->Ok_0.state == (StateView { last_offramp_id: id, ..s })
                && second->Ok_0.script_cbtc == cbtc
        }),
{
    let first = steps::create_offramp(
        s,
        cbtc,
        amount,
        payment_hash,
        refund_address,
        expires_at,
    )->Ok_0;
    let x = first.state.offramps[0];
    assert(first.state.offramps =~= seq![x] + s.offramps);
    lemma_without_front_offramp(x, s.offramps);
}

/// Fulfilling the offramp that was created last puts its amount into the pool, and leaves
/// everything else as it was but for the number that was given out.
pub proof fn lemma_create_fulfill_offramp(
    s: StateView,
    cbtc: i64,
    amount: i64,
    payment_hash: Seq<char>,
    refund_address: Seq<char>,
    expires_at: i64,
)
    requires
        0 < amount,
        steps::fits(s.last_offramp_id + 1),
        steps::fits(s.total_liquidity + amount),
        steps::fits(cbtc + amount),
        forall|i: int|
            0 <= i < s.offramps.len() ==> (#[trigger] s.offramps[i]).offramp_id
                <= s.last_offramp_id,
    ensures
        ({
            let first = steps::create_offramp(
                s,
                cbtc,
                amount,
                payment_hash,
                refund_address,
                expires_at,
            )->Ok_0;
            let second = steps::fulfill_offramp(
                first.state,
                first.script_cbtc,
                first.state.offramps[0],
            );
            second.state == (StateView {
                total_liquidity: (s.total_liquidity + amount) as i64,
                last_offramp_id: first.state.last_offramp_id,
                ..s
            }) && second.script_cbtc == cbtc + amount
        }),
{
    let first = steps::create_offramp(
        s,
        cbtc,
        amount,
        payment_hash,
        refund_address,
        expires_at,
    )->Ok_0;
    let x = first.state.offramps[0];
    assert(first.state.offramps =~= seq![x] + s.offramps);
    lemma_without_front_offramp(x, s.offramps);
}

} // verus!

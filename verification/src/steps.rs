//! The operations of the contract, as steps from one pool state to the next.
//!
//! - deposit: the operator puts cBTC into the pool
//! - withdraw: the operator takes cBTC out of the pool
//! - create invoice: reserve cBTC for a Lightning swap
//! - fulfill invoice: send the cBTC of an invoice to its owner
//! - cancel invoice: drop an expired invoice, unreserve its cBTC
//! - create offramp: register a Lightning payment to be made
//! - fulfill offramp: put its cBTC into the pool once the payment succeeded
//! - cancel offramp: drop an expired offramp

use crate::error::{CardanoError, ErrorView};
use crate::text::{i64_text, joined};
use crate::types::{
    clone_invoices, clone_offramps, Action, ActionView, Invoice, InvoiceView, Offramp, OfframpView,
    State, StateView,
};
use crate::{error, text, types};
use vstd::prelude::*;
use vstd::string::*;

verus! {

/// A step of the contract: the next pool state, the action that leads to it, the cBTC that
/// is left at the script, and the cBTC that goes to an address.
#[derive(Debug, PartialEq)]
pub struct ContractStep {
    pub state: State,
    pub action: Action,
    pub script_cbtc: i64,
    pub payout: Option<(String, i64)>,
}

/// The model of a [`ContractStep`].
pub struct StepView {
    pub state: StateView,
    pub action: ActionView,
    pub script_cbtc: i64,
    pub payout: Option<(Seq<char>, i64)>,
}

impl View for ContractStep {
    type V = StepView;

    open spec fn view(&self) -> StepView {
        StepView {
            state: self.state@,
            action: self.action@,
            script_cbtc: self.script_cbtc,
            payout: match self.payout {
                Some(p) => Some((p.0@, p.1)),
                None => None,
            },
        }
    }
}

/// Whether a number lies within the range of `i64`.
pub open spec fn fits(n: int) -> bool {
    i64::MIN <= n <= i64::MAX
}

/// The invoices without those of the number `id`.
pub open spec fn without_invoice(invoices: Seq<InvoiceView>, id: i64) -> Seq<InvoiceView>
    decreases invoices.len(),
{
    if invoices.len() == 0 {
        Seq::empty()
    } else if invoices.last().invoice_id == id {
        without_invoice(invoices.drop_last(), id)
    } else {
        without_invoice(invoices.drop_last(), id).push(invoices.last())
    }
}

/// The offramps without those of the number `id`.
pub open spec fn without_offramp(offramps: Seq<OfframpView>, id: i64) -> Seq<OfframpView>
    decreases offramps.len(),
{
    if offramps.len() == 0 {
        Seq::empty()
    } else if offramps.last().offramp_id == id {
        without_offramp(offramps.drop_last(), id)
    } else {
        without_offramp(offramps.drop_last(), id).push(offramps.last())
    }
}

/// The first invoice of the number `id`.
pub open spec fn first_invoice(invoices: Seq<InvoiceView>, id: i64) -> Option<InvoiceView>
    decreases invoices.len(),
{
    if invoices.len() == 0 {
        None
    } else if invoices[0].invoice_id == id {
        Some(invoices[0])
    } else {
        first_invoice(invoices.skip(1), id)
    }
}

/// Whether there is an offramp of the number `id`.
pub open spec fn has_offramp(offramps: Seq<OfframpView>, id: i64) -> bool {
    exists|i: int| 0 <= i < offramps.len() && (#[trigger] offramps[i]).offramp_id == id
}

/// Deposit: the amount goes into the pool.
pub open spec fn deposit(s: StateView, cbtc: i64, amount: i64) -> Result<StepView, ErrorView> {
    if amount <= 0 {
        Err(ErrorView::Parse("deposit amount must be positive"@))
    } else {
        Ok(
            StepView {
                state: StateView { total_liquidity: (s.total_liquidity + amount) as i64, ..s },
                action: ActionView::Deposit { amount },
                script_cbtc: (cbtc + amount) as i64,
                payout: None,
            },
        )
    }
}

/// Withdraw: the amount leaves the pool, from what is available.
pub open spec fn withdraw(s: StateView, cbtc: i64, amount: i64) -> Result<StepView, ErrorView> {
    if amount <= 0 {
        Err(ErrorView::Parse("withdraw amount must be positive"@))
    } else if amount > s.available() {
        Err(
            ErrorView::Parse(
                "withdraw "@ + text::decimal(amount as int) + " exceeds available "@
                    + text::decimal(s.available()),
            ),
        )
    } else {
        Ok(
            StepView {
                state: StateView { total_liquidity: (s.total_liquidity - amount) as i64, ..s },
                action: ActionView::Withdraw { amount },
                script_cbtc: (cbtc - amount) as i64,
                payout: None,
            },
        )
    }
}

/// Create invoice: the amount is reserved, and the invoice comes first among the others,
/// under the next number.
pub open spec fn create_invoice(
    s: StateView,
    cbtc: i64,
    amount: i64,
    owner: Seq<char>,
    timestamp: i64,
    expires_at: i64,
) -> Result<StepView, ErrorView> {
    if amount <= 0 {
        Err(ErrorView::Parse("invoice amount must be positive"@))
    } else if amount > s.available() {
        Err(
            ErrorView::Parse(
                "invoice amount "@ + text::decimal(amount as int) + " exceeds available "@
                    + text::decimal(s.available()),
            ),
        )
    } else {
        let id = (s.last_invoice_id + 1) as i64;
        let invoice = InvoiceView { invoice_id: id, amount, owner, timestamp, expires_at };
        Ok(
            StepView {
                state: StateView {
                    reserved: (s.reserved + amount) as i64,
                    last_invoice_id: id,
                    invoices: seq![invoice] + s.invoices,
                    ..s
                },
                action: ActionView::CreateInvoice { amount, owner, timestamp, expires_at },
                script_cbtc: cbtc,
                payout: None,
            },
        )
    }
}

/// Fulfill invoice: the amount leaves the pool and what is reserved, and goes to the owner.
pub open spec fn fulfill_invoice(
    s: StateView,
    cbtc: i64,
    invoice: InvoiceView,
    owner_address: Seq<char>,
) -> StepView {
    StepView {
        state: StateView {
            total_liquidity: (s.total_liquidity - invoice.amount) as i64,
            reserved: (s.reserved - invoice.amount) as i64,
            invoices: without_invoice(s.invoices, invoice.invoice_id),
            ..s
        },
        action: ActionView::FulfillInvoice { invoice },
        script_cbtc: (cbtc - invoice.amount) as i64,
        payout: Some((owner_address, invoice.amount)),
    }
}

/// Cancel invoice: the amount of the invoice is no longer reserved.
pub open spec fn cancel_invoice(s: StateView, cbtc: i64, invoice_id: i64) -> Result<
    StepView,
    ErrorView,
> {
    match first_invoice(s.invoices, invoice_id) {
        None => Err(
            ErrorView::NotFound(
                "invoice "@ + text::decimal(invoice_id as int) + " not found"@,
            ),
        ),
        Some(invoice) => Ok(
            StepView {
                state: StateView {
                    reserved: (s.reserved - invoice.amount) as i64,
                    invoices: without_invoice(s.invoices, invoice_id),
                    ..s
                },
                action: ActionView::CancelInvoice { invoice_id },
                script_cbtc: cbtc,
                payout: None,
            },
        ),
    }
}

/// Create offramp: the offramp comes first among the others, under the next number. No
/// cBTC moves.
pub open spec fn create_offramp(
    s: StateView,
    cbtc: i64,
    amount: i64,
    payment_hash: Seq<char>,
    refund_address: Seq<char>,
    expires_at: i64,
) -> Result<StepView, ErrorView> {
    if amount <= 0 {
        Err(ErrorView::Parse("offramp amount must be positive"@))
    } else {
        let id = (s.last_offramp_id + 1) as i64;
        let offramp = OfframpView {
            offramp_id: id,
            amount,
            payment_hash,
            refund_address,
            expires_at,
        };
        Ok(
            StepView {
                state: StateView {
                    last_offramp_id: id,
                    offramps: seq![offramp] + s.offramps,
                    ..s
                },
                action: ActionView::CreateOfframp {
                    amount,
                    payment_hash,
                    refund_address,
                    expires_at,
                },
                script_cbtc: cbtc,
                payout: None,
            },
        )
    }
}

/// Fulfill offramp: the amount goes into the pool.
pub open spec fn fulfill_offramp(s: StateView, cbtc: i64, offramp: OfframpView) -> StepView {
    StepView {
        state: StateView {
            total_liquidity: (s.total_liquidity + offramp.amount) as i64,
            offramps: without_offramp(s.offramps, offramp.offramp_id),
            ..s
        },
        action: ActionView::FulfillOfframp { offramp },
        script_cbtc: (cbtc + offramp.amount) as i64,
        payout: None,
    }
}

/// Cancel offramp: the offramp is dropped. No cBTC moves.
pub open spec fn cancel_offramp(s: StateView, cbtc: i64, offramp_id: i64) -> Result<
    StepView,
    ErrorView,
> {
    if has_offramp(s.offramps, offramp_id) {
        Ok(
            StepView {
                state: StateView { offramps: without_offramp(s.offramps, offramp_id), ..s },
                action: ActionView::CancelOfframp { offramp_id },
                script_cbtc: cbtc,
                payout: None,
            },
        )
    } else {
        Err(
            ErrorView::NotFound(
                "offramp "@ + text::decimal(offramp_id as int) + " not found"@,
            ),
        )
    }
}

/// Copies the invoices without those of the number `id`.
fn drop_invoice(invoices: &Vec<Invoice>, id: i64) -> (r: Vec<Invoice>)
    ensures
        types::invoices_view(r@) == without_invoice(types::invoices_view(invoices@), id),
{
    let ghost views = types::invoices_view(invoices@);
    let mut r: Vec<Invoice> = Vec::new();
    let mut i: usize = 0;
    assert(types::invoices_view(r@) =~= without_invoice(views.take(0), id));
    while i < invoices.len()
        invariant
            i <= invoices.len(),
            views == types::invoices_view(invoices@),
            types::invoices_view(r@) == without_invoice(views.take(i as int), id),
        decreases invoices.len() - i,
    {
        assert(views.take(i + 1).drop_last() =~= views.take(i as int));
        if invoices[i].invoice_id != id {
            let invoice = invoices[i].clone();
            assert(types::invoices_view(r@.push(invoice)) =~= types::invoices_view(r@).push(
                invoice@,
            ));
            r.push(invoice);
        }
        i = i + 1;
    }
    assert(views.take(i as int) =~= views);
    r
}

/// Copies the offramps without those of the number `id`.
fn drop_offramp(offramps: &Vec<Offramp>, id: i64) -> (r: Vec<Offramp>)
    ensures
        types::offramps_view(r@) == without_offramp(types::offramps_view(offramps@), id),
{
    let ghost views = types::offramps_view(offramps@);
    let mut r: Vec<Offramp> = Vec::new();
    let mut i: usize = 0;
    assert(types::offramps_view(r@) =~= without_offramp(views.take(0), id));
    while i < offramps.len()
        invariant
            i <= offramps.len(),
            views == types::offramps_view(offramps@),
            types::offramps_view(r@) == without_offramp(views.take(i as int), id),
        decreases offramps.len() - i,
    {
        assert(views.take(i + 1).drop_last() =~= views.take(i as int));
        if offramps[i].offramp_id != id {
            let offramp = offramps[i].clone();
            assert(types::offramps_view(r@.push(offramp)) =~= types::offramps_view(r@).push(
                offramp@,
            ));
            r.push(offramp);
        }
        i = i + 1;
    }
    assert(views.take(i as int) =~= views);
    r
}

/// Finds the first invoice of the number `id`.
fn find_invoice(invoices: &Vec<Invoice>, id: i64) -> (r: Option<&Invoice>)
    ensures
        (match r {
            Some(invoice) => Some(invoice@),
            None => None,
        }) == first_invoice(types::invoices_view(invoices@), id),
{
    let ghost views = types::invoices_view(invoices@);
    let mut i: usize = 0;
    assert(views.skip(0) =~= views);
    while i < invoices.len()
        invariant
            i <= invoices.len(),
            views == types::invoices_view(invoices@),
            first_invoice(views, id) == first_invoice(views.skip(i as int), id),
        decreases invoices.len() - i,
    {
        assert(views.skip(i as int)[0] == views[i as int]);
        assert(views.skip(i as int).skip(1) =~= views.skip(i + 1));
        if invoices[i].invoice_id == id {
            return Some(&invoices[i]);
        }
        i = i + 1;
    }
    None
}

/// Whether there is an offramp of the number `id`.
fn contains_offramp(offramps: &Vec<Offramp>, id: i64) -> (r: bool)
    ensures
        r == has_offramp(types::offramps_view(offramps@), id),
{
    let ghost views = types::offramps_view(offramps@);
    let mut i: usize = 0;
    while i < offramps.len()
        invariant
            i <= offramps.len(),
            views == types::offramps_view(offramps@),
            forall|k: int| 0 <= k < i ==> (#[trigger] views[k]).offramp_id != id,
        decreases offramps.len() - i,
    {
        assert(views[i as int] == offramps[i as int]@);
        if offramps[i].offramp_id == id {
            return true;
        }
        i = i + 1;
    }
    false
}

/// Works out a deposit of `amount`.
pub fn deposit_step(current_state: &State, script_cbtc: i64, amount: i64) -> (r: Result<
    ContractStep,
    CardanoError,
>)
    requires
        amount > 0 ==> fits(current_state.total_liquidity + amount) && fits(script_cbtc + amount),
    ensures
        error::outcome(r) == deposit(current_state@, script_cbtc, amount),
{
    if amount <= 0 {
        return Err(CardanoError::parse("deposit amount must be positive"));
    }
    Ok(
        ContractStep {
            state: State {
                total_liquidity: current_state.total_liquidity + amount,
                reserved: current_state.reserved,
                last_invoice_id: current_state.last_invoice_id,
                invoices: clone_invoices(&current_state.invoices),
                last_offramp_id: current_state.last_offramp_id,
                offramps: clone_offramps(&current_state.offramps),
            },
            action: Action::Deposit { amount },
            script_cbtc: script_cbtc + amount,
            payout: None,
        },
    )
}

/// Whether a withdrawal can be worked out within the range of `i64`.
pub open spec fn withdraw_fits(s: StateView, cbtc: i64, amount: i64) -> bool {
    amount > 0 ==> fits(s.available()) && (amount <= s.available() ==> fits(
        s.total_liquidity - amount,
    ) && fits(cbtc - amount))
}

/// Works out a withdrawal of `amount`.
pub fn withdraw_step(current_state: &State, script_cbtc: i64, amount: i64) -> (r: Result<
    ContractStep,
    CardanoError,
>)
    requires
        withdraw_fits(current_state@, script_cbtc, amount),
    ensures
        error::outcome(r) == withdraw(current_state@, script_cbtc, amount),
{
    if amount <= 0 {
        return Err(CardanoError::parse("withdraw amount must be positive"));
    }
    if amount > current_state.available() {
        let mut message = joined("withdraw ", i64_text(amount).as_str());
        message.append(" exceeds available ");
        message.append(i64_text(current_state.available()).as_str());
        return Err(CardanoError::Parse(message));
    }
    Ok(
        ContractStep {
            state: State {
                total_liquidity: current_state.total_liquidity - amount,
                reserved: current_state.reserved,
                last_invoice_id: current_state.last_invoice_id,
                invoices: clone_invoices(&current_state.invoices),
                last_offramp_id: current_state.last_offramp_id,
                offramps: clone_offramps(&current_state.offramps),
            },
            action: Action::Withdraw { amount },
            script_cbtc: script_cbtc - amount,
            payout: None,
        },
    )
}

/// Whether an invoice can be worked out within the range of `i64`.
pub open spec fn create_invoice_fits(s: StateView, amount: i64) -> bool {
    amount > 0 ==> fits(s.available()) && (amount <= s.available() ==> fits(s.last_invoice_id + 1)
        && fits(s.reserved + amount))
}

/// Works out an invoice of `amount` for the given owner.
pub fn create_invoice_step(
    current_state: &State,
    script_cbtc: i64,
    amount: i64,
    owner_pkh: &str,
    timestamp: i64,
    expires_at: i64,
) -> (r: Result<ContractStep, CardanoError>)
    requires
        create_invoice_fits(current_state@, amount),
    ensures
        error::outcome(r) == create_invoice(
            current_state@,
            script_cbtc,
            amount,
            owner_pkh@,
            timestamp,
            expires_at,
        ),
{
    if amount <= 0 {
        return Err(CardanoError::parse("invoice amount must be positive"));
    }
    if amount > current_state.available() {
        let mut message = joined("invoice amount ", i64_text(amount).as_str());
        message.append(" exceeds available ");
        message.append(i64_text(current_state.available()).as_str());
        return Err(CardanoError::Parse(message));
    }
    let new_invoice_id: i64 = current_state.last_invoice_id + 1;
    let new_invoice = Invoice {
        invoice_id: new_invoice_id,
        amount,
        owner: owner_pkh.to_owned(),
        timestamp,
        expires_at,
    };
    let ghost new_view = new_invoice@;
    let mut rest = clone_invoices(&current_state.invoices);
    let ghost rest_views = rest@;
    let mut new_invoices = vec![new_invoice];
    new_invoices.append(&mut rest);
    assert(types::invoices_view(new_invoices@) =~= seq![new_view] + types::invoices_view(
        rest_views,
    ));
    Ok(
        ContractStep {
            state: State {
                total_liquidity: current_state.total_liquidity,
                reserved: current_state.reserved + amount,
                last_invoice_id: new_invoice_id,
                invoices: new_invoices,
                last_offramp_id: current_state.last_offramp_id,
                offramps: clone_offramps(&current_state.offramps),
            },
            action: Action::CreateInvoice {
                amount,
                owner: owner_pkh.to_owned(),
                timestamp,
                expires_at,
            },
            script_cbtc,
            payout: None,
        },
    )
}

/// Works out the fulfilment of `invoice`.
pub fn fulfill_invoice_step(
    current_state: &State,
    script_cbtc: i64,
    invoice: &Invoice,
    owner_address: &str,
) -> (r: ContractStep)
    requires
        fits(current_state.total_liquidity - invoice.amount),
        fits(current_state.reserved - invoice.amount),
        fits(script_cbtc - invoice.amount),
    ensures
        r@ == fulfill_invoice(current_state@, script_cbtc, invoice@, owner_address@),
{
    ContractStep {
        state: State {
            total_liquidity: current_state.total_liquidity - invoice.amount,
            reserved: current_state.reserved - invoice.amount,
            last_invoice_id: current_state.last_invoice_id,
            invoices: drop_invoice(&current_state.invoices, invoice.invoice_id),
            last_offramp_id: current_state.last_offramp_id,
            offramps: clone_offramps(&current_state.offramps),
        },
        action: Action::FulfillInvoice { invoice: invoice.clone() },
        script_cbtc: script_cbtc - invoice.amount,
        payout: Some((owner_address.to_owned(), invoice.amount)),
    }
}

/// Works out the cancellation of the invoice of the number `invoice_id`.
pub fn cancel_invoice_step(current_state: &State, script_cbtc: i64, invoice_id: i64) -> (r: Result<
    ContractStep,
    CardanoError,
>)
    requires
        match first_invoice(current_state@.invoices, invoice_id) {
            Some(invoice) => fits(current_state.reserved - invoice.amount),
            None => true,
        },
    ensures
        error::outcome(r) == cancel_invoice(current_state@, script_cbtc, invoice_id),
{
    let amount: i64 = match find_invoice(&current_state.invoices, invoice_id) {
        Some(invoice) => invoice.amount,
        None => {
            let mut message = joined("invoice ", i64_text(invoice_id).as_str());
            message.append(" not found");
            return Err(CardanoError::NotFound(message));
        },
    };
    Ok(
        ContractStep {
            state: State {
                total_liquidity: current_state.total_liquidity,
                reserved: current_state.reserved - amount,
                last_invoice_id: current_state.last_invoice_id,
                invoices: drop_invoice(&current_state.invoices, invoice_id),
                last_offramp_id: current_state.last_offramp_id,
                offramps: clone_offramps(&current_state.offramps),
            },
            action: Action::CancelInvoice { invoice_id },
            script_cbtc,
            payout: None,
        },
    )
}

/// Works out an offramp of `amount`.
pub fn create_offramp_step(
    current_state: &State,
    script_cbtc: i64,
    amount: i64,
    payment_hash: &str,
    refund_address: &str,
    expires_at: i64,
) -> (r: Result<ContractStep, CardanoError>)
    requires
        amount > 0 ==> fits(current_state.last_offramp_id + 1),
    ensures
        error::outcome(r) == create_offramp(
            current_state@,
            script_cbtc,
            amount,
            payment_hash@,
            refund_address@,
            expires_at,
        ),
{
    if amount <= 0 {
        return Err(CardanoError::parse("offramp amount must be positive"));
    }
    let new_offramp_id: i64 = current_state.last_offramp_id + 1;
    let new_offramp = Offramp {
        offramp_id: new_offramp_id,
        amount,
        payment_hash: payment_hash.to_owned(),
        refund_address: refund_address.to_owned(),
        expires_at,
    };
    let ghost new_view = new_offramp@;
    let mut rest = clone_offramps(&current_state.offramps);
    let ghost rest_views = rest@;
    let mut new_offramps = vec![new_offramp];
    new_offramps.append(&mut rest);
    assert(types::offramps_view(new_offramps@) =~= seq![new_view] + types::offramps_view(
        rest_views,
    ));
    Ok(
        ContractStep {
            state: State {
                total_liquidity: current_state.total_liquidity,
                reserved: current_state.reserved,
                last_invoice_id: current_state.last_invoice_id,
                invoices: clone_invoices(&current_state.invoices),
                last_offramp_id: new_offramp_id,
                offramps: new_offramps,
            },
            action: Action::CreateOfframp {
                amount,
                payment_hash: payment_hash.to_owned(),
                refund_address: refund_address.to_owned(),
                expires_at,
            },
            script_cbtc,
            payout: None,
        },
    )
}

/// Works out the fulfilment of `offramp`.
pub fn fulfill_offramp_step(current_state: &State, script_cbtc: i64, offramp: &Offramp) -> (r:
    ContractStep)
    requires
        fits(current_state.total_liquidity + offramp.amount),
        fits(script_cbtc + offramp.amount),
    ensures
        r@ == fulfill_offramp(current_state@, script_cbtc, offramp@),
{
    ContractStep {
        state: State {
            total_liquidity: current_state.total_liquidity + offramp.amount,
            reserved: current_state.reserved,
            last_invoice_id: current_state.last_invoice_id,
            invoices: clone_invoices(&current_state.invoices),
            last_offramp_id: current_state.last_offramp_id,
            offramps: drop_offramp(&current_state.offramps, offramp.offramp_id),
        },
        action: Action::FulfillOfframp { offramp: offramp.clone() },
        script_cbtc: script_cbtc + offramp.amount,
        payout: None,
    }
}

/// Works out the cancellation of the offramp of the number `offramp_id`.
pub fn cancel_offramp_step(current_state: &State, script_cbtc: i64, offramp_id: i64) -> (r: Result<
    ContractStep,
    CardanoError,
>)
    ensures
        error::outcome(r) == cancel_offramp(current_state@, script_cbtc, offramp_id),
{
    if !contains_offramp(&current_state.offramps, offramp_id) {
        let mut message = joined("offramp ", i64_text(offramp_id).as_str());
        message.append(" not found");
        return Err(CardanoError::NotFound(message));
    }
    Ok(
        ContractStep {
            state: State {
                total_liquidity: current_state.total_liquidity,
                reserved: current_state.reserved,
                last_invoice_id: current_state.last_invoice_id,
                invoices: clone_invoices(&current_state.invoices),
                last_offramp_id: current_state.last_offramp_id,
                offramps: drop_offramp(&current_state.offramps, offramp_id),
            },
            action: Action::CancelOfframp { offramp_id },
            script_cbtc,
            payout: None,
        },
    )
}

} // verus!

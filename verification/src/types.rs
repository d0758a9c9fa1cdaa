//! Types of the Lightning Liquidity Manager contract.
//!
//! They match the `State`, `Invoice`, `Offramp` and `Action` types of the contract.

use crate::datum::{plutus_bytes, plutus_int};
use crate::error::{CardanoError, ErrorView};
use crate::json::{Json, JsonView};
use crate::text::{i64_text, joined, u64_text};
use crate::{datum, error, json, text};
use vstd::prelude::*;
use vstd::string::*;

verus! {

/// Contract pool state (top-level datum).
#[derive(Debug, PartialEq)]
pub struct State {
    pub total_liquidity: i64,
    pub reserved: i64,
    pub last_invoice_id: i64,
    pub invoices: Vec<Invoice>,
    pub last_offramp_id: i64,
    pub offramps: Vec<Offramp>,
}

/// A single invoice within the contract state.
#[derive(Debug, PartialEq)]
pub struct Invoice {
    pub invoice_id: i64,
    pub amount: i64,
    /// Hex-encoded payment key hash.
    pub owner: String,
    pub timestamp: i64,
    pub expires_at: i64,
}

/// A single offramp within the contract state: a Lightning payment that the pool will be
/// paid back for.
#[derive(Debug, PartialEq)]
pub struct Offramp {
    pub offramp_id: i64,
    pub amount: i64,
    /// Hex-encoded hash of the Lightning payment.
    pub payment_hash: String,
    /// Hex-encoded address for refunds.
    pub refund_address: String,
    pub expires_at: i64,
}

/// The redeemer actions of the contract, in the order of their constructor indices.
#[derive(Debug, PartialEq)]
pub enum Action {
    /// Constructor 0.
    Deposit { amount: i64 },
    /// Constructor 1.
    Withdraw { amount: i64 },
    /// Constructor 2.
    CreateInvoice { amount: i64, owner: String, timestamp: i64, expires_at: i64 },
    /// Constructor 3.
    FulfillInvoice { invoice: Invoice },
    /// Constructor 4.
    CancelInvoice { invoice_id: i64 },
    /// Constructor 5.
    CreateOfframp { amount: i64, payment_hash: String, refund_address: String, expires_at: i64 },
    /// Constructor 6.
    FulfillOfframp { offramp: Offramp },
    /// Constructor 7.
    CancelOfframp { offramp_id: i64 },
}

/// The model of an [`Invoice`].
pub struct InvoiceView {
    pub invoice_id: i64,
    pub amount: i64,
    pub owner: Seq<char>,
    pub timestamp: i64,
    pub expires_at: i64,
}

/// The model of an [`Offramp`].
pub struct OfframpView {
    pub offramp_id: i64,
    pub amount: i64,
    pub payment_hash: Seq<char>,
    pub refund_address: Seq<char>,
    pub expires_at: i64,
}

/// The model of a [`State`].
pub struct StateView {
    pub total_liquidity: i64,
    pub reserved: i64,
    pub last_invoice_id: i64,
    pub invoices: Seq<InvoiceView>,
    pub last_offramp_id: i64,
    pub offramps: Seq<OfframpView>,
}

/// The model of an [`Action`].
pub enum ActionView {
    Deposit { amount: i64 },
    Withdraw { amount: i64 },
    CreateInvoice { amount: i64, owner: Seq<char>, timestamp: i64, expires_at: i64 },
    FulfillInvoice { invoice: InvoiceView },
    CancelInvoice { invoice_id: i64 },
    CreateOfframp {
        amount: i64,
        payment_hash: Seq<char>,
        refund_address: Seq<char>,
        expires_at: i64,
    },
    FulfillOfframp { offramp: OfframpView },
    CancelOfframp { offramp_id: i64 },
}

impl View for Invoice {
    type V = InvoiceView;

    open spec fn view(&self) -> InvoiceView {
        InvoiceView {
            invoice_id: self.invoice_id,
            amount: self.amount,
            owner: self.owner@,
            timestamp: self.timestamp,
            expires_at: self.expires_at,
        }
    }
}

impl View for Offramp {
    type V = OfframpView;

    open spec fn view(&self) -> OfframpView {
        OfframpView {
            offramp_id: self.offramp_id,
            amount: self.amount,
            payment_hash: self.payment_hash@,
            refund_address: self.refund_address@,
            expires_at: self.expires_at,
        }
    }
}

/// The models of some invoices.
pub open spec fn invoices_view(invoices: Seq<Invoice>) -> Seq<InvoiceView> {
    Seq::new(invoices.len(), |i: int| invoices[i]@)
}

/// The models of some offramps.
pub open spec fn offramps_view(offramps: Seq<Offramp>) -> Seq<OfframpView> {
    Seq::new(offramps.len(), |i: int| offramps[i]@)
}

impl View for State {
    type V = StateView;

    open spec fn view(&self) -> StateView {
        StateView {
            total_liquidity: self.total_liquidity,
            reserved: self.reserved,
            last_invoice_id: self.last_invoice_id,
            invoices: invoices_view(self.invoices@),
            last_offramp_id: self.last_offramp_id,
            offramps: offramps_view(self.offramps@),
        }
    }
}

impl View for Action {
    type V = ActionView;

    open spec fn view(&self) -> ActionView {
        match self {
            Action::Deposit { amount } => ActionView::Deposit { amount: *amount },
            Action::Withdraw { amount } => ActionView::Withdraw { amount: *amount },
            Action::CreateInvoice { amount, owner, timestamp, expires_at } => {
                ActionView::CreateInvoice {
                    amount: *amount,
                    owner: owner@,
                    timestamp: *timestamp,
                    expires_at: *expires_at,
                }
            },
            Action::FulfillInvoice { invoice } => ActionView::FulfillInvoice { invoice: invoice@ },
            Action::CancelInvoice { invoice_id } => {
                ActionView::CancelInvoice { invoice_id: *invoice_id }
            },
            Action::CreateOfframp { amount, payment_hash, refund_address, expires_at } => {
                ActionView::CreateOfframp {
                    amount: *amount,
                    payment_hash: payment_hash@,
                    refund_address: refund_address@,
                    expires_at: *expires_at,
                }
            },
            Action::FulfillOfframp { offramp } => ActionView::FulfillOfframp { offramp: offramp@ },
            Action::CancelOfframp { offramp_id } => {
                ActionView::CancelOfframp { offramp_id: *offramp_id }
            },
        }
    }
}

impl StateView {
    /// The part of the liquidity that nothing is reserved from.
    pub open spec fn available(self) -> int {
        self.total_liquidity - self.reserved
    }
}

/// The invoice that Plutus JSON describes: the first five fields are its number, its
/// amount, its owner and its two times.
pub open spec fn invoice_of(j: JsonView) -> Result<InvoiceView, ErrorView> {
    match json::items_at(j, "fields"@) {
        None => Err(ErrorView::Parse("Invoice: missing 'fields' array"@)),
        Some(f) => if f.len() < 5 {
            Err(
                ErrorView::Parse(
                    "Invoice: expected 5 fields, got "@ + text::decimal(f.len() as int),
                ),
            )
        } else if let Err(e) = datum::int_of(f[0]) {
            Err(e)
        } else if let Err(e) = datum::int_of(f[1]) {
            Err(e)
        } else if let Err(e) = datum::bytes_of(f[2]) {
            Err(e)
        } else if let Err(e) = datum::int_of(f[3]) {
            Err(e)
        } else if let Err(e) = datum::int_of(f[4]) {
            Err(e)
        } else {
            Ok(
                InvoiceView {
                    invoice_id: datum::int_of(f[0])->Ok_0,
                    amount: datum::int_of(f[1])->Ok_0,
                    owner: datum::bytes_of(f[2])->Ok_0,
                    timestamp: datum::int_of(f[3])->Ok_0,
                    expires_at: datum::int_of(f[4])->Ok_0,
                },
            )
        },
    }
}

/// The offramp that Plutus JSON describes: the first five fields are its number, its
/// amount, the hash of its payment, its address for refunds and the time it expires at.
pub open spec fn offramp_of(j: JsonView) -> Result<OfframpView, ErrorView> {
    match json::items_at(j, "fields"@) {
        None => Err(ErrorView::Parse("Offramp: missing 'fields' array"@)),
        Some(f) => if f.len() < 5 {
            Err(
                ErrorView::Parse(
                    "Offramp: expected 5 fields, got "@ + text::decimal(f.len() as int),
                ),
            )
        } else if let Err(e) = datum::int_of(f[0]) {
            Err(e)
        } else if let Err(e) = datum::int_of(f[1]) {
            Err(e)
        } else if let Err(e) = datum::bytes_of(f[2]) {
            Err(e)
        } else if let Err(e) = datum::bytes_of(f[3]) {
            Err(e)
        } else if let Err(e) = datum::int_of(f[4]) {
            Err(e)
        } else {
            Ok(
                OfframpView {
                    offramp_id: datum::int_of(f[0])->Ok_0,
                    amount: datum::int_of(f[1])->Ok_0,
                    payment_hash: datum::bytes_of(f[2])->Ok_0,
                    refund_address: datum::bytes_of(f[3])->Ok_0,
                    expires_at: datum::int_of(f[4])->Ok_0,
                },
            )
        },
    }
}

/// The invoices that some Plutus JSON describes, or the first error among them.
pub open spec fn invoices_of(items: Seq<JsonView>) -> Result<Seq<InvoiceView>, ErrorView>
    decreases items.len(),
{
    if items.len() == 0 {
        Ok(Seq::empty())
    } else {
        match invoices_of(items.drop_last()) {
            Ok(before) => match invoice_of(items.last()) {
                Ok(last) => Ok(before.push(last)),
                Err(e) => Err(e),
            },
            Err(e) => Err(e),
        }
    }
}

/// The offramps that some Plutus JSON describes, or the first error among them.
pub open spec fn offramps_of(items: Seq<JsonView>) -> Result<Seq<OfframpView>, ErrorView>
    decreases items.len(),
{
    if items.len() == 0 {
        Ok(Seq::empty())
    } else {
        match offramps_of(items.drop_last()) {
            Ok(before) => match offramp_of(items.last()) {
                Ok(last) => Ok(before.push(last)),
                Err(e) => Err(e),
            },
            Err(e) => Err(e),
        }
    }
}

/// The pool state that Plutus JSON describes: the first four fields are the total
/// liquidity, the reserved part, the last invoice number and the invoices. Two more fields
/// are the last offramp number and the offramps; without them there are none.
pub open spec fn state_of(j: JsonView) -> Result<StateView, ErrorView> {
    match json::items_at(j, "fields"@) {
        None => Err(ErrorView::Parse("State: missing 'fields' array"@)),
        Some(f) => if f.len() < 4 {
            Err(
                ErrorView::Parse(
                    "State: expected 4 fields, got "@ + text::decimal(f.len() as int),
                ),
            )
        } else if json::items_at(f[3], "list"@) is None {
            Err(ErrorView::Parse("State: field 3 should be a list of invoices"@))
        } else if f.len() >= 6 && json::items_at(f[5], "list"@) is None {
            Err(ErrorView::Parse("State: field 5 should be a list of offramps"@))
        } else if let Err(e) = datum::int_of(f[0]) {
            Err(e)
        } else if let Err(e) = datum::int_of(f[1]) {
            Err(e)
        } else if let Err(e) = datum::int_of(f[2]) {
            Err(e)
        } else if let Err(e) = invoices_of(json::items_at(f[3], "list"@)->Some_0) {
            Err(e)
        } else if f.len() < 6 {
            Ok(
                StateView {
                    total_liquidity: datum::int_of(f[0])->Ok_0,
                    reserved: datum::int_of(f[1])->Ok_0,
                    last_invoice_id: datum::int_of(f[2])->Ok_0,
                    invoices: invoices_of(json::items_at(f[3], "list"@)->Some_0)->Ok_0,
                    last_offramp_id: 0,
                    offramps: Seq::empty(),
                },
            )
        } else if let Err(e) = datum::int_of(f[4]) {
            Err(e)
        } else if let Err(e) = offramps_of(json::items_at(f[5], "list"@)->Some_0) {
            Err(e)
        } else {
            Ok(
                StateView {
                    total_liquidity: datum::int_of(f[0])->Ok_0,
                    reserved: datum::int_of(f[1])->Ok_0,
                    last_invoice_id: datum::int_of(f[2])->Ok_0,
                    invoices: invoices_of(json::items_at(f[3], "list"@)->Some_0)->Ok_0,
                    last_offramp_id: datum::int_of(f[4])->Ok_0,
                    offramps: offramps_of(json::items_at(f[5], "list"@)->Some_0)->Ok_0,
                },
            )
        },
    }
}

/// An error among the first documents is the error of all.
proof fn lemma_invoices_error(items: Seq<JsonView>, k: int)
    requires
        0 <= k <= items.len(),
        invoices_of(items.take(k)) is Err,
    ensures
        invoices_of(items) == invoices_of(items.take(k)),
    decreases items.len() - k,
{
    if k < items.len() {
        assert(items.take(k + 1).drop_last() =~= items.take(k));
        lemma_invoices_error(items, k + 1);
    } else {
        assert(items.take(k) =~= items);
    }
}

/// An error among the first documents is the error of all.
proof fn lemma_offramps_error(items: Seq<JsonView>, k: int)
    requires
        0 <= k <= items.len(),
        offramps_of(items.take(k)) is Err,
    ensures
        offramps_of(items) == offramps_of(items.take(k)),
    decreases items.len() - k,
{
    if k < items.len() {
        assert(items.take(k + 1).drop_last() =~= items.take(k));
        lemma_offramps_error(items, k + 1);
    } else {
        assert(items.take(k) =~= items);
    }
}

impl Clone for Invoice {
    fn clone(&self) -> (r: Invoice)
        ensures
            r@ == self@,
    {
        Invoice {
            invoice_id: self.invoice_id,
            amount: self.amount,
            owner: self.owner.clone(),
            timestamp: self.timestamp,
            expires_at: self.expires_at,
        }
    }
}

impl Clone for Offramp {
    fn clone(&self) -> (r: Offramp)
        ensures
            r@ == self@,
    {
        Offramp {
            offramp_id: self.offramp_id,
            amount: self.amount,
            payment_hash: self.payment_hash.clone(),
            refund_address: self.refund_address.clone(),
            expires_at: self.expires_at,
        }
    }
}

/// Copies some invoices.
pub(crate) fn clone_invoices(invoices: &Vec<Invoice>) -> (r: Vec<Invoice>)
    ensures
        invoices_view(r@) == invoices_view(invoices@),
{
    let mut r: Vec<Invoice> = Vec::new();
    let mut i: usize = 0;
    while i < invoices.len()
        invariant
            i <= invoices.len(),
            r.len() == i,
            forall|k: int| 0 <= k < i ==> (#[trigger] r[k])@ == invoices[k]@,
        decreases invoices.len() - i,
    {
        r.push(invoices[i].clone());
        i = i + 1;
    }
    assert(invoices_view(r@) =~= invoices_view(invoices@));
    r
}

/// Copies some offramps.
pub(crate) fn clone_offramps(offramps: &Vec<Offramp>) -> (r: Vec<Offramp>)
    ensures
        offramps_view(r@) == offramps_view(offramps@),
{
    let mut r: Vec<Offramp> = Vec::new();
    let mut i: usize = 0;
    while i < offramps.len()
        invariant
            i <= offramps.len(),
            r.len() == i,
            forall|k: int| 0 <= k < i ==> (#[trigger] r[k])@ == offramps[k]@,
        decreases offramps.len() - i,
    {
        r.push(offramps[i].clone());
        i = i + 1;
    }
    assert(offramps_view(r@) =~= offramps_view(offramps@));
    r
}

impl Clone for State {
    fn clone(&self) -> (r: State)
        ensures
            r@ == self@,
    {
        State {
            total_liquidity: self.total_liquidity,
            reserved: self.reserved,
            last_invoice_id: self.last_invoice_id,
            invoices: clone_invoices(&self.invoices),
            last_offramp_id: self.last_offramp_id,
            offramps: clone_offramps(&self.offramps),
        }
    }
}

impl Clone for Action {
    fn clone(&self) -> (r: Action)
        ensures
            r@ == self@,
    {
        match self {
            Action::Deposit { amount } => Action::Deposit { amount: *amount },
            Action::Withdraw { amount } => Action::Withdraw { amount: *amount },
            Action::CreateInvoice { amount, owner, timestamp, expires_at } => {
                Action::CreateInvoice {
                    amount: *amount,
                    owner: owner.clone(),
                    timestamp: *timestamp,
                    expires_at: *expires_at,
                }
            },
            Action::FulfillInvoice { invoice } => {
                Action::FulfillInvoice { invoice: invoice.clone() }
            },
            Action::CancelInvoice { invoice_id } => {
                Action::CancelInvoice { invoice_id: *invoice_id }
            },
            Action::CreateOfframp { amount, payment_hash, refund_address, expires_at } => {
                Action::CreateOfframp {
                    amount: *amount,
                    payment_hash: payment_hash.clone(),
                    refund_address: refund_address.clone(),
                    expires_at: *expires_at,
                }
            },
            Action::FulfillOfframp { offramp } => {
                Action::FulfillOfframp { offramp: offramp.clone() }
            },
            Action::CancelOfframp { offramp_id } => {
                Action::CancelOfframp { offramp_id: *offramp_id }
            },
        }
    }
}

impl Invoice {
    /// Parses an invoice from Plutus JSON:
    /// ```json
    /// {"constructor": 0, "fields": [
    ///   {"int": invoice_id}, {"int": amount}, {"bytes": "owner_pkh"},
    ///   {"int": timestamp}, {"int": expires_at}
    /// ]}
    /// ```
    pub fn try_from(val: &Json) -> (r: Result<Invoice, CardanoError>)
        ensures
            error::outcome(r) == invoice_of(val@),
    {
        let fields = match val.get_array("fields") {
            Some(fields) => fields,
            None => {
                return Err(CardanoError::parse("Invoice: missing 'fields' array"));
            },
        };
        proof {
            json::lemma_array_view(fields@);
        }
        if fields.len() < 5 {
            return Err(
                CardanoError::parse_with(
                    "Invoice: expected 5 fields, got ",
                    u64_text(fields.len() as u64).as_str(),
                ),
            );
        }
        let invoice_id: i64 = match plutus_int(&fields[0]) {
            Ok(n) => n,
            Err(e) => {
                return Err(e);
            },
        };
        let amount: i64 = match plutus_int(&fields[1]) {
            Ok(n) => n,
            Err(e) => {
                return Err(e);
            },
        };
        let owner = match plutus_bytes(&fields[2]) {
            Ok(s) => s,
            Err(e) => {
                return Err(e);
            },
        };
        let timestamp: i64 = match plutus_int(&fields[3]) {
            Ok(n) => n,
            Err(e) => {
                return Err(e);
            },
        };
        let expires_at: i64 = match plutus_int(&fields[4]) {
            Ok(n) => n,
            Err(e) => {
                return Err(e);
            },
        };
        Ok(Invoice { invoice_id, amount, owner, timestamp, expires_at })
    }
}

impl Offramp {
    /// Parses an offramp from Plutus JSON:
    /// ```json
    /// {"constructor": 0, "fields": [
    ///   {"int": offramp_id}, {"int": amount}, {"bytes": "payment_hash"},
    ///   {"bytes": "refund_address"}, {"int": expires_at}
    /// ]}
    /// ```
    pub fn try_from(val: &Json) -> (r: Result<Offramp, CardanoError>)
        ensures
            error::outcome(r) == offramp_of(val@),
    {
        let fields = match val.get_array("fields") {
            Some(fields) => fields,
            None => {
                return Err(CardanoError::parse("Offramp: missing 'fields' array"));
            },
        };
        proof {
            json::lemma_array_view(fields@);
        }
        if fields.len() < 5 {
            return Err(
                CardanoError::parse_with(
                    "Offramp: expected 5 fields, got ",
                    u64_text(fields.len() as u64).as_str(),
                ),
            );
        }
        let offramp_id: i64 = match plutus_int(&fields[0]) {
            Ok(n) => n,
            Err(e) => {
                return Err(e);
            },
        };
        let amount: i64 = match plutus_int(&fields[1]) {
            Ok(n) => n,
            Err(e) => {
                return Err(e);
            },
        };
        let payment_hash = match plutus_bytes(&fields[2]) {
            Ok(s) => s,
            Err(e) => {
                return Err(e);
            },
        };
        let refund_address = match plutus_bytes(&fields[3]) {
            Ok(s) => s,
            Err(e) => {
                return Err(e);
            },
        };
        let expires_at: i64 = match plutus_int(&fields[4]) {
            Ok(n) => n,
            Err(e) => {
                return Err(e);
            },
        };
        Ok(Offramp { offramp_id, amount, payment_hash, refund_address, expires_at })
    }
}

/// Parses invoices from Plutus JSON, up to the first error.
fn parse_invoices(items: &Vec<Json>) -> (r: Result<Vec<Invoice>, CardanoError>)
    ensures
        (match r {
            Ok(v) => Ok(invoices_view(v@)),
            Err(e) => Err(e@),
        }) == invoices_of(json::array_view(items@)),
{
    let ghost views = json::array_view(items@);
    proof {
        json::lemma_array_view(items@);
        assert(views.take(0) =~= Seq::empty());
    }
    let mut list: Vec<Invoice> = Vec::new();
    assert(invoices_view(list@) =~= Seq::empty());
    let mut i: usize = 0;
    while i < items.len()
        invariant
            i <= items.len(),
            views == json::array_view(items@),
            views.len() == items.len(),
            forall|k: int| 0 <= k < items.len() ==> #[trigger] views[k] == items[k]@,
            invoices_of(views.take(i as int)) == Ok::<Seq<InvoiceView>, ErrorView>(
                invoices_view(list@),
            ),
        decreases items.len() - i,
    {
        assert(views.take(i + 1).drop_last() =~= views.take(i as int));
        match Invoice::try_from(&items[i]) {
            Ok(invoice) => {
                assert(invoices_view(list@.push(invoice)) =~= invoices_view(list@).push(
                    invoice@,
                ));
                list.push(invoice);
            },
            Err(e) => {
                proof {
                    lemma_invoices_error(views, i + 1);
                }
                return Err(e);
            },
        }
        i = i + 1;
    }
    assert(views.take(i as int) =~= views);
    Ok(list)
}

/// Parses offramps from Plutus JSON, up to the first error.
fn parse_offramps(items: &Vec<Json>) -> (r: Result<Vec<Offramp>, CardanoError>)
    ensures
        (match r {
            Ok(v) => Ok(offramps_view(v@)),
            Err(e) => Err(e@),
        }) == offramps_of(json::array_view(items@)),
{
    let ghost views = json::array_view(items@);
    proof {
        json::lemma_array_view(items@);
        assert(views.take(0) =~= Seq::empty());
    }
    let mut list: Vec<Offramp> = Vec::new();
    assert(offramps_view(list@) =~= Seq::empty());
    let mut i: usize = 0;
    while i < items.len()
        invariant
            i <= items.len(),
            views == json::array_view(items@),
            views.len() == items.len(),
            forall|k: int| 0 <= k < items.len() ==> #[trigger] views[k] == items[k]@,
            offramps_of(views.take(i as int)) == Ok::<Seq<OfframpView>, ErrorView>(
                offramps_view(list@),
            ),
        decreases items.len() - i,
    {
        assert(views.take(i + 1).drop_last() =~= views.take(i as int));
        match Offramp::try_from(&items[i]) {
            Ok(offramp) => {
                assert(offramps_view(list@.push(offramp)) =~= offramps_view(list@).push(
                    offramp@,
                ));
                list.push(offramp);
            },
            Err(e) => {
                proof {
                    lemma_offramps_error(views, i + 1);
                }
                return Err(e);
            },
        }
        i = i + 1;
    }
    assert(views.take(i as int) =~= views);
    Ok(list)
}

impl State {
    /// The part of the liquidity that nothing is reserved from.
    pub fn available(&self) -> (r: i64)
        requires
            i64::MIN <= self@.available() <= i64::MAX,
        ensures
            r == self@.available(),
    {
        self.total_liquidity - self.reserved
    }

    /// Parses a pool state from Plutus JSON:
    /// ```json
    /// {"constructor": 0, "fields": [
    ///   {"int": total_liquidity}, {"int": reserved},
    ///   {"int": last_invoice_id}, {"list": [...invoices...]},
    ///   {"int": last_offramp_id}, {"list": [...offramps...]}
    /// ]}
    /// ```
    /// The last two fields may be missing: the pool has no offramps then.
    pub fn try_from(val: &Json) -> (r: Result<State, CardanoError>)
        ensures
            error::outcome(r) == state_of(val@),
    {
        let fields = match val.get_array("fields") {
            Some(fields) => fields,
            None => {
                return Err(CardanoError::parse("State: missing 'fields' array"));
            },
        };
        proof {
            json::lemma_array_view(fields@);
        }
        if fields.len() < 4 {
            return Err(
                CardanoError::parse_with(
                    "State: expected 4 fields, got ",
                    u64_text(fields.len() as u64).as_str(),
                ),
            );
        }
        let invoices_list = match fields[3].get_array("list") {
            Some(list) => list,
            None => {
                return Err(CardanoError::parse("State: field 3 should be a list of invoices"));
            },
        };
        let offramps_list = if fields.len() >= 6 {
            match fields[5].get_array("list") {
                Some(list) => Some(list),
                None => {
                    return Err(
                        CardanoError::parse("State: field 5 should be a list of offramps"),
                    );
                },
            }
        } else {
            None
        };
        let total_liquidity: i64 = match plutus_int(&fields[0]) {
            Ok(n) => n,
            Err(e) => {
                return Err(e);
            },
        };
        let reserved: i64 = match plutus_int(&fields[1]) {
            Ok(n) => n,
            Err(e) => {
                return Err(e);
            },
        };
        let last_invoice_id: i64 = match plutus_int(&fields[2]) {
            Ok(n) => n,
            Err(e) => {
                return Err(e);
            },
        };
        let invoices = match parse_invoices(invoices_list) {
            Ok(v) => v,
            Err(e) => {
                return Err(e);
            },
        };
        match offramps_list {
            None => {
                let offramps: Vec<Offramp> = Vec::new();
                assert(offramps_view(offramps@) =~= Seq::empty());
                Ok(
                    State {
                        total_liquidity,
                        reserved,
                        last_invoice_id,
                        invoices,
                        last_offramp_id: 0,
                        offramps,
                    },
                )
            },
            Some(list) => {
                let last_offramp_id: i64 = match plutus_int(&fields[4]) {
                    Ok(n) => n,
                    Err(e) => {
                        return Err(e);
                    },
                };
                match parse_offramps(list) {
                    Ok(offramps) => Ok(
                        State {
                            total_liquidity,
                            reserved,
                            last_invoice_id,
                            invoices,
                            last_offramp_id,
                            offramps,
                        },
                    ),
                    Err(e) => Err(e),
                }
            },
        }
    }
}

/// The line that describes an invoice.
pub open spec fn invoice_text(v: InvoiceView) -> Seq<char> {
    "Invoice #"@ + text::decimal(v.invoice_id as int) + ": amount="@ + text::decimal(
        v.amount as int,
    ) + ", owner="@ + v.owner + ", ts="@ + text::decimal(v.timestamp as int) + ", expires="@
        + text::decimal(v.expires_at as int)
}

/// The lines that describe some invoices, each behind a dash.
pub open spec fn invoice_lines(invoices: Seq<InvoiceView>) -> Seq<char>
    decreases invoices.len(),
{
    if invoices.len() == 0 {
        Seq::empty()
    } else {
        invoice_lines(invoices.drop_last()) + "    - "@ + invoice_text(invoices.last()) + "\n"@
    }
}

/// The lines that describe a pool state.
pub open spec fn state_text(v: StateView) -> Seq<char> {
    "Pool State:\n  total_liquidity: "@ + text::decimal(v.total_liquidity as int)
        + "\n  reserved:        "@ + text::decimal(v.reserved as int)
        + "\n  available:        "@ + text::decimal(v.available())
        + "\n  last_invoice_id: "@ + text::decimal(v.last_invoice_id as int)
        + "\n  invoices:        "@ + text::decimal(v.invoices.len() as int) + " active\n"@
        + invoice_lines(v.invoices)
}

impl Invoice {
    /// The line that describes this invoice.
    pub fn to_text(&self) -> (r: String)
        ensures
            r@ == invoice_text(self@),
    {
        let mut r = joined("Invoice #", i64_text(self.invoice_id).as_str());
        r.append(": amount=");
        r.append(i64_text(self.amount).as_str());
        r.append(", owner=");
        r.append(self.owner.as_str());
        r.append(", ts=");
        r.append(i64_text(self.timestamp).as_str());
        r.append(", expires=");
        r.append(i64_text(self.expires_at).as_str());
        r
    }
}

impl State {
    /// The lines that describe this state.
    pub fn to_text(&self) -> (r: String)
        requires
            i64::MIN <= self@.available() <= i64::MAX,
        ensures
            r@ == state_text(self@),
    {
        let mut r = joined(
            "Pool State:\n  total_liquidity: ",
            i64_text(self.total_liquidity).as_str(),
        );
        r.append("\n  reserved:        ");
        r.append(i64_text(self.reserved).as_str());
        r.append("\n  available:        ");
        r.append(i64_text(self.available()).as_str());
        r.append("\n  last_invoice_id: ");
        r.append(i64_text(self.last_invoice_id).as_str());
        r.append("\n  invoices:        ");
        r.append(u64_text(self.invoices.len() as u64).as_str());
        r.append(" active\n");
        let ghost head = r@;
        let ghost views = invoices_view(self.invoices@);
        let mut i: usize = 0;
        assert(r@ =~= head + invoice_lines(views.take(0)));
        while i < self.invoices.len()
            invariant
                i <= self.invoices.len(),
                views == invoices_view(self.invoices@),
                r@ == head + invoice_lines(views.take(i as int)),
            decreases self.invoices.len() - i,
        {
            let line = self.invoices[i].to_text();
            r.append("    - ");
            r.append(line.as_str());
            r.append("\n");
            assert(views.take(i + 1).drop_last() =~= views.take(i as int));
            assert(r@ =~= head + invoice_lines(views.take(i + 1)));
            i = i + 1;
        }
        assert(views.take(i as int) =~= views);
        r
    }
}

} // verus!

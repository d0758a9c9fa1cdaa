//! The errors of the library.

use crate::text::joined;
use vstd::prelude::*;

verus! {

/// Errors from Cardano contract interactions.
#[derive(Debug, PartialEq)]
pub enum CardanoError {
    /// HTTP or network errors (API unreachable, timeouts), by their text.
    Network(String),
    /// Datum or CBOR parsing failures.
    Parse(String),
    /// Expected resource not found (no UTxO, no datum, no script address).
    NotFound(String),
}

/// The model of a [`CardanoError`].
pub enum ErrorView {
    Network(Seq<char>),
    Parse(Seq<char>),
    NotFound(Seq<char>),
}

impl View for CardanoError {
    type V = ErrorView;

    open spec fn view(&self) -> ErrorView {
        match self {
            CardanoError::Network(s) => ErrorView::Network(s@),
            CardanoError::Parse(s) => ErrorView::Parse(s@),
            CardanoError::NotFound(s) => ErrorView::NotFound(s@),
        }
    }
}

/// The model of a result: that of the value, or that of the error.
pub open spec fn outcome<T: View>(r: Result<T, CardanoError>) -> Result<T::V, ErrorView> {
    match r {
        Ok(v) => Ok(v@),
        Err(e) => Err(e@),
    }
}

/// The text of an error: its kind, a colon and its details.
pub open spec fn error_text(e: ErrorView) -> Seq<char> {
    match e {
        ErrorView::Network(s) => "network error: "@ + s,
        ErrorView::Parse(s) => "parse error: "@ + s,
        ErrorView::NotFound(s) => "not found: "@ + s,
    }
}

impl CardanoError {
    /// The text of this error.
    pub fn message(&self) -> (r: String)
        ensures
            r@ == error_text(self@),
    {
        match self {
            CardanoError::Network(s) => joined("network error: ", s.as_str()),
            CardanoError::Parse(s) => joined("parse error: ", s.as_str()),
            CardanoError::NotFound(s) => joined("not found: ", s.as_str()),
        }
    }

    /// A parse error whose details are `text`.
    pub fn parse(text: &str) -> (r: CardanoError)
        ensures
            r@ == ErrorView::Parse(text@),
    {
        CardanoError::Parse(text.to_owned())
    }

    /// A parse error whose details are `prefix` and then `text`.
    pub fn parse_with(prefix: &str, text: &str) -> (r: CardanoError)
        ensures
            r@ == ErrorView::Parse(prefix@ + text@),
    {
        CardanoError::Parse(joined(prefix, text))
    }

    /// A report that a resource is missing, with the details `text`.
    pub fn not_found(text: &str) -> (r: CardanoError)
        ensures
            r@ == ErrorView::NotFound(text@),
    {
        CardanoError::NotFound(text.to_owned())
    }
}

} // verus!

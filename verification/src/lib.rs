//! Client for the Lightning Liquidity Manager contract on Cardano.
//!
//! The contract keeps a pool of cBTC for Lightning swaps. This library reads the pool state
//! from the datum of the contract ([`datum`], [`types`], [`agent`]), works out the steps from
//! one state to the next ([`steps`]) and builds the transactions for them ([`contract`],
//! [`operator`]). Network access is left to the caller, who hands in what a
//! Blockfrost-compatible API answered.
//!
//! What holds of the library as a whole is stated and proved beside it:
//! - of the pool: [`effects`], [`laws`]
//! - of documents, CBOR and text: [`layout`], [`encoding`], [`round_trip`], [`documents`]
//! - of transactions: [`transactions`], [`operations`], [`buildable`]
//! - of the answers of the API: [`answers`], [`requests`]
//! - of the models that contracts speak of: [`models`]

pub mod address;
pub mod agent;
pub mod answers;
pub mod base16;
pub mod buildable;
pub mod cbor;
pub mod contract;
pub mod datum;
pub mod digits;
pub mod documents;
pub mod effects;
pub mod encoding;
pub mod error;
pub mod guard;
pub mod json;
pub mod laws;
pub mod layout;
pub mod models;
pub mod operations;
pub mod operator;
pub mod parameters;
pub mod requests;
pub mod round_trip;
pub mod steps;
pub mod text;
pub mod transactions;
pub mod tx_builder;
pub mod types;

pub use agent::{CardanoAgent, CardanoConfig};
pub use error::CardanoError;
pub use operator::{OperatorAgent, OperatorConfig};
pub use types::{Action, Invoice, Offramp, State};

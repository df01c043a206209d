//! Wiping a contract account's on-chain state without deleting the account.
//!
//! A wipe goes in steps:
//!   1. [`plan::fetch_protocol_constants`] takes the gas costs and limits out of the chain's
//!      protocol configuration.
//!   2. [`cleanup::read_state`] takes the storage entries out of a `view_state` answer.
//!   3. [`wipe::build_transaction`] builds one transaction that deploys the cleanup contract and
//!      calls its `clean` method with every key, and refuses where that does not fit in a single
//!      transaction.
//!   4. [`clean_args::clean`] is what the cleanup contract makes of the call's arguments.
pub mod action;
pub mod clean_args;
pub mod cleanup;
pub mod decimal;
pub mod filler;
pub mod key_text;
pub mod laws;
pub mod plan;
pub mod wipe;

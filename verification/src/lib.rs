//! Batch transfers on a Solana ledger.
//!
//! A batch sends a fixed amount from every sender of a wallet set to every
//! receiver. The library decodes the wallets, plans one unit of work for
//! each pair, builds and signs each transfer, decides step by step what a
//! unit asks of the ledger, and gathers the outcomes in a report. It talks to
//! no ledger itself: whoever drives a unit makes the calls and hands the
//! answers back.
//!
//! Beside the batch it holds the rules of the deposit program and the
//! reading of balance replies.

pub mod balance;
pub mod deposit;
pub mod dispatch;
pub mod json;
pub mod keys;
pub mod ledger;
pub mod report;
pub mod transaction;
pub mod wallet;

//! Resilient access layer between an application backend and a remote ledger
//! node, plus the decision logic of the two background loops that keep a local
//! replica of selected ledger state consistent with the ledger.
//!
//! The library decides; the surrounding program performs the I/O. Every
//! remote call, sleep and database statement is made by the caller, which
//! hands the outcome back as a plain value and receives the next action.

pub mod api;
pub mod client;
pub mod config;
pub mod error;
pub mod rate_limiter;
pub mod health;
pub mod retry;
pub mod store;
pub mod events;
pub mod sync;

//! A custodial ledger for a fiat-pegged digital currency: wallet balances,
//! a reserve that backs every issued unit, compliance screening, and an
//! append-only transaction log, driven by a single engine.
//!
//! All amounts are whole minor units (hundredths of the currency unit) and
//! all timestamps are milliseconds since the Unix epoch.

pub mod error;
pub mod models;
pub mod totals;
pub mod ledger;
pub mod reserve;
pub mod txlog;
pub mod replies;
pub mod compliance;
pub mod engine;
pub mod laws;
mod system;

//! Core of a multi-tenant balance ledger: accounts hold an append-only
//! transaction history, the balance of an account is the snapshot carried by
//! its latest transaction, and every deposit, withdrawal and interest posting
//! extends the history under a single well-formedness invariant.

pub mod auth;
pub mod bank;
pub mod interest;
pub mod laws;
pub mod model;
pub mod money;
pub mod notify;
pub mod requests;
pub mod sign_in;
pub mod store;

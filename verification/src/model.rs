//! The entities of the ledger: users and their roles, accounts, committed
//! transactions, and transaction requests awaiting a second-party decision,
//! together with the error taxonomy every operation reports from.

use vstd::prelude::*;
use crate::money::Cents;

verus! {

/// What a caller is allowed to do: an `Admin` acts for a whole tenant, an
/// `Investor` only for their own accounts.
#[derive(Clone, Copy, Debug, PartialEq, Eq, Structural)]
pub enum Role {
    Admin,
    Investor,
}

/// An acting or owning user. Only the fields that authorization decisions
/// read are kept here; the directory that stores the rest is a collaborator.
#[derive(Clone, Copy, Debug, PartialEq, Eq, Structural)]
pub struct User {
    pub id: i32,
    pub client_id: i32,
    pub role: Role,
}

/// An account. The balance is never stored here: it is derived from the
/// account's transaction history.
#[derive(Clone, Copy, Debug, PartialEq, Eq, Structural)]
pub struct Account {
    pub id: i32,
    pub user_id: i32,
    pub created_at: i64,
}

/// The kind of a committed transaction or of a requested one.
#[derive(Clone, Copy, Debug, PartialEq, Eq, Structural)]
pub enum TransactionKind {
    Deposit,
    Withdrawal,
    Interest,
}

/// A committed ledger entry. `amount` is always a positive magnitude;
/// `balance` is the account balance immediately after this entry applied.
#[derive(Clone, Copy, Debug, PartialEq, Eq, Structural)]
pub struct Transaction {
    pub id: i32,
    pub account_id: i32,
    pub kind: TransactionKind,
    pub amount: Cents,
    pub balance: Cents,
    pub created_at: i64,
}

/// The contribution of a transaction to the running balance: positive for
/// deposits and interest, negative for withdrawals.
pub open spec fn signed_amount(t: Transaction) -> int {
    match t.kind {
        TransactionKind::Deposit => t.amount.0 as int,
        TransactionKind::Interest => t.amount.0 as int,
        TransactionKind::Withdrawal => -(t.amount.0 as int),
    }
}

/// The state of a transaction request: created `Pending`, it moves exactly
/// once to one of the two terminal states.
#[derive(Clone, Copy, Debug, PartialEq, Eq, Structural)]
pub enum RequestState {
    Pending,
    Approved,
    Rejected,
}

/// A proposed deposit or withdrawal awaiting a second-party decision before
/// it may touch the ledger.
#[derive(Clone, Copy, Debug, PartialEq, Eq, Structural)]
pub struct TransactionRequest {
    pub id: i32,
    pub account_id: i32,
    pub kind: TransactionKind,
    pub amount: Cents,
    pub state: RequestState,
    pub created_at: i64,
}

/// Everything an operation can fail with. Callers branch on the kind;
/// `message` gives the human-readable wording for each.
#[derive(Clone, Copy, Debug, PartialEq, Eq, Structural)]
pub enum LedgerError {
    /// The amount of a deposit, withdrawal or request is not positive.
    InvalidAmount,
    /// A withdrawal asks for more than the current balance.
    InsufficientFunds,
    /// The acting user may not touch the target account.
    Unauthorized,
    /// The named account, user or request does not exist.
    NotFound,
    /// A request that is no longer pending was approved or rejected again,
    /// or a request proposed something the workflow cannot execute.
    InvalidState,
    /// An optimistic append lost a race: the prior balance it was computed
    /// from is no longer the latest. The caller may retry the whole unit.
    ConcurrencyConflict,
    /// A representation limit was hit mid-unit (an amount, balance or
    /// identifier no longer fits). Nothing was applied.
    Internal,
}

impl LedgerError {
    /// The human-readable message carried alongside the kind.
    pub fn message(&self) -> (m: &'static str)
        ensures
            m@ == self.spec_message(),
    {
        match self {
            LedgerError::InvalidAmount => "Invalid amount",
            LedgerError::InsufficientFunds => "Insufficient funds",
            LedgerError::Unauthorized => "Unauthorised",
            LedgerError::NotFound => "Not found",
            LedgerError::InvalidState => "Invalid state",
            LedgerError::ConcurrencyConflict => "Concurrency conflict",
            LedgerError::Internal => "Internal error",
        }
    }

    /// The wording `message` returns for each kind.
    pub open spec fn spec_message(self) -> Seq<char> {
        match self {
            LedgerError::InvalidAmount => "Invalid amount"@,
            LedgerError::InsufficientFunds => "Insufficient funds"@,
            LedgerError::Unauthorized => "Unauthorised"@,
            LedgerError::NotFound => "Not found"@,
            LedgerError::InvalidState => "Invalid state"@,
            LedgerError::ConcurrencyConflict => "Concurrency conflict"@,
            LedgerError::Internal => "Internal error"@,
        }
    }
}

} // verus!

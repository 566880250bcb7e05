use ledger_core::auth::can_access;
use ledger_core::bank::{Bank, DepositInput, WithdrawalInput};
use ledger_core::interest::InterestConfig;
use ledger_core::model::{
    Account, LedgerError, RequestState, Role, TransactionKind, User,
};
use ledger_core::money::Cents;

fn bank_with(rate: u32) -> (Bank, User, i32) {
    let mut bank = Bank::new(InterestConfig { daily_rate_bps: rate });
    let user = User { id: 1, client_id: 1, role: Role::Admin };
    assert!(bank.add_user(user));
    let account = bank.open_account(user.id, 0).unwrap();
    (bank, user, account.id)
}

#[test]
fn withdraw_reduces_balance() {
    let (mut bank, user, account_id) = bank_with(0);
    bank.deposit(&user, DepositInput { account_id, cents: 500 }, 0).unwrap();

    let t = bank.withdraw(&user, WithdrawalInput { account_id, cents: 200 }, 0).unwrap();

    assert_eq!(t.kind, TransactionKind::Withdrawal);
    assert_eq!(t.amount, Cents(200));
    assert_eq!(t.balance, Cents(300));
    assert_eq!(bank.get_balance(account_id), Cents(300));
}

#[test]
fn withdraw_past_balance_fails_and_changes_nothing() {
    let (mut bank, user, account_id) = bank_with(0);
    bank.deposit(&user, DepositInput { account_id, cents: 500 }, 0).unwrap();

    let result = bank.withdraw(&user, WithdrawalInput { account_id, cents: 1000 }, 0);

    assert_eq!(result.unwrap_err(), LedgerError::InsufficientFunds);
    assert_eq!(bank.get_balance(account_id), Cents(500));
    assert_eq!(bank.transactions(account_id).len(), 1);
}

#[test]
fn withdraw_rejects_non_positive_amount() {
    let (mut bank, user, account_id) = bank_with(0);
    bank.deposit(&user, DepositInput { account_id, cents: 100 }, 0).unwrap();

    let result = bank.withdraw(&user, WithdrawalInput { account_id, cents: 0 }, 0);

    assert_eq!(result.unwrap_err(), LedgerError::InvalidAmount);
}

#[test]
fn history_forms_a_balance_chain() {
    let (mut bank, user, account_id) = bank_with(0);
    bank.deposit(&user, DepositInput { account_id, cents: 300 }, 0).unwrap();
    bank.withdraw(&user, WithdrawalInput { account_id, cents: 120 }, 1).unwrap();
    bank.deposit(&user, DepositInput { account_id, cents: 45 }, 2).unwrap();
    bank.withdraw(&user, WithdrawalInput { account_id, cents: 5 }, 3).unwrap();

    let txns = bank.transactions(account_id);
    assert_eq!(txns.len(), 4);
    let mut prior: i64 = 0;
    for t in &txns {
        let signed = match t.kind {
            TransactionKind::Withdrawal => -t.amount.0,
            _ => t.amount.0,
        };
        assert_eq!(t.balance.0, prior + signed);
        prior = t.balance.0;
    }
    assert_eq!(prior, 220);
}

#[test]
fn serial_deposits_add_up_with_distinct_baselines() {
    let (mut bank, user, account_id) = bank_with(0);
    bank.deposit(&user, DepositInput { account_id, cents: 7 }, 0).unwrap();
    let base = bank.get_balance(account_id).0;

    for _ in 0..5 {
        bank.deposit(&user, DepositInput { account_id, cents: 10 }, 0).unwrap();
    }

    assert_eq!(bank.get_balance(account_id), Cents(base + 5 * 10));
    let txns = bank.transactions(account_id);
    assert_eq!(txns.len(), 6);
    // every deposit was computed from a different prior balance
    let mut baselines: Vec<i64> = Vec::new();
    let mut prior: i64 = 0;
    for t in &txns {
        baselines.push(prior);
        prior = t.balance.0;
    }
    for i in 0..baselines.len() {
        for j in 0..i {
            assert_ne!(baselines[i], baselines[j]);
        }
    }
}

#[test]
fn accrual_posts_interest_once_per_instant() {
    // 100 basis points of the balance per day
    let (mut bank, user, account_id) = bank_with(100);
    bank.deposit(&user, DepositInput { account_id, cents: 10000 }, 0).unwrap();

    let posted = bank.accrue(account_id, 86400).unwrap();
    let t = posted.unwrap();
    assert_eq!(t.kind, TransactionKind::Interest);
    assert_eq!(t.amount, Cents(100));
    assert_eq!(t.balance, Cents(10100));

    // the second call in the same instant finds an empty window
    let again = bank.accrue(account_id, 86400).unwrap();
    assert!(again.is_none());
    assert_eq!(bank.get_balance(account_id), Cents(10100));
}

#[test]
fn accrual_of_zero_posts_nothing() {
    let (mut bank, user, account_id) = bank_with(100);
    bank.deposit(&user, DepositInput { account_id, cents: 10000 }, 0).unwrap();

    // less than a full day elapsed: nothing owed, nothing posted
    let posted = bank.accrue(account_id, 86399).unwrap();
    assert!(posted.is_none());
    assert_eq!(bank.transactions(account_id).len(), 1);
}

#[test]
fn withdrawal_baseline_includes_accrued_interest() {
    let (mut bank, user, account_id) = bank_with(100);
    bank.deposit(&user, DepositInput { account_id, cents: 10000 }, 0).unwrap();

    // 10000 alone would not cover 10050, the accrued 100 make it pass
    let t = bank.withdraw(&user, WithdrawalInput { account_id, cents: 10050 }, 86400).unwrap();

    assert_eq!(t.balance, Cents(50));
    let txns = bank.transactions(account_id);
    assert_eq!(txns.len(), 3);
    assert_eq!(txns[1].kind, TransactionKind::Interest);
    assert_eq!(txns[1].amount, Cents(100));
}

#[test]
fn accrual_overflow_is_internal_and_rolls_back() {
    let (mut bank, user, account_id) = bank_with(4_000_000_000);
    bank.deposit(&user, DepositInput { account_id, cents: 2147483647 }, 0).unwrap();
    bank.deposit(&user, DepositInput { account_id, cents: 2147483647 }, 0).unwrap();

    let result = bank.accrue(account_id, 86400);

    assert_eq!(result.unwrap_err(), LedgerError::Internal);
    assert_eq!(bank.transactions(account_id).len(), 2);
}

#[test]
fn approval_executes_the_deposit() {
    let (mut bank, user, account_id) = bank_with(0);
    let q = bank
        .create_transaction_request(account_id, TransactionKind::Deposit, Cents(100), 0)
        .unwrap();
    assert_eq!(q.state, RequestState::Pending);

    let t = bank.approve_request(q.id, &user, 0).unwrap();

    assert_eq!(t.kind, TransactionKind::Deposit);
    assert_eq!(t.balance, Cents(100));
    assert_eq!(bank.get_balance(account_id), Cents(100));
    assert_eq!(bank.find_request(q.id).unwrap().state, RequestState::Approved);
}

#[test]
fn deciding_a_terminal_request_is_invalid_state() {
    let (mut bank, user, account_id) = bank_with(0);
    let q = bank
        .create_transaction_request(account_id, TransactionKind::Deposit, Cents(100), 0)
        .unwrap();
    bank.approve_request(q.id, &user, 0).unwrap();

    assert_eq!(bank.approve_request(q.id, &user, 0).unwrap_err(), LedgerError::InvalidState);
    assert_eq!(bank.reject_request(q.id, &user).unwrap_err(), LedgerError::InvalidState);
    // exactly one transition was recorded
    assert_eq!(bank.find_request(q.id).unwrap().state, RequestState::Approved);
    assert_eq!(bank.get_balance(account_id), Cents(100));
}

#[test]
fn rejection_never_touches_the_ledger() {
    let (mut bank, user, account_id) = bank_with(0);
    let q = bank
        .create_transaction_request(account_id, TransactionKind::Withdrawal, Cents(40), 0)
        .unwrap();

    let rejected = bank.reject_request(q.id, &user).unwrap();

    assert_eq!(rejected.state, RequestState::Rejected);
    assert_eq!(bank.find_request(q.id).unwrap().state, RequestState::Rejected);
    assert_eq!(bank.transactions(account_id).len(), 0);
    assert_eq!(bank.reject_request(q.id, &user).unwrap_err(), LedgerError::InvalidState);
}

#[test]
fn failed_approval_keeps_the_request_pending() {
    let (mut bank, user, account_id) = bank_with(0);
    bank.deposit(&user, DepositInput { account_id, cents: 50 }, 0).unwrap();
    let q = bank
        .create_transaction_request(account_id, TransactionKind::Withdrawal, Cents(100), 0)
        .unwrap();

    let result = bank.approve_request(q.id, &user, 0);

    assert_eq!(result.unwrap_err(), LedgerError::InsufficientFunds);
    assert_eq!(bank.find_request(q.id).unwrap().state, RequestState::Pending);
    assert_eq!(bank.get_balance(account_id), Cents(50));
}

#[test]
fn request_creation_is_validated() {
    let (mut bank, _user, account_id) = bank_with(0);

    let zero = bank.create_transaction_request(account_id, TransactionKind::Deposit, Cents(0), 0);
    assert_eq!(zero.unwrap_err(), LedgerError::InvalidAmount);

    let interest =
        bank.create_transaction_request(account_id, TransactionKind::Interest, Cents(10), 0);
    assert_eq!(interest.unwrap_err(), LedgerError::InvalidState);

    let missing = bank.create_transaction_request(999, TransactionKind::Deposit, Cents(10), 0);
    assert_eq!(missing.unwrap_err(), LedgerError::NotFound);
}

#[test]
fn investors_reach_only_their_own_accounts() {
    let mut bank = Bank::new(InterestConfig { daily_rate_bps: 0 });
    let owner = User { id: 1, client_id: 1, role: Role::Investor };
    let other_investor = User { id: 2, client_id: 1, role: Role::Investor };
    assert!(bank.add_user(owner));
    assert!(bank.add_user(other_investor));
    let account = bank.open_account(owner.id, 0).unwrap();

    // the owner may act on their own account
    bank.deposit(&owner, DepositInput { account_id: account.id, cents: 100 }, 0).unwrap();

    // another investor of the same tenant may not
    let denied = bank.deposit(&other_investor, DepositInput { account_id: account.id, cents: 100 }, 0);
    assert_eq!(denied.unwrap_err(), LedgerError::Unauthorized);
    assert!(!can_access(&other_investor, &owner, &account));
}

#[test]
fn admins_never_cross_tenants() {
    let mut bank = Bank::new(InterestConfig { daily_rate_bps: 0 });
    let owner = User { id: 1, client_id: 1, role: Role::Investor };
    let same_tenant_admin = User { id: 2, client_id: 1, role: Role::Admin };
    let other_tenant_admin = User { id: 3, client_id: 2, role: Role::Admin };
    assert!(bank.add_user(owner));
    assert!(bank.add_user(same_tenant_admin));
    assert!(bank.add_user(other_tenant_admin));
    let account = bank.open_account(owner.id, 0).unwrap();

    bank.deposit(&same_tenant_admin, DepositInput { account_id: account.id, cents: 100 }, 0)
        .unwrap();

    let denied =
        bank.withdraw(&other_tenant_admin, WithdrawalInput { account_id: account.id, cents: 10 }, 0);
    assert_eq!(denied.unwrap_err(), LedgerError::Unauthorized);
    assert!(!can_access(&other_tenant_admin, &owner, &account));
    assert!(can_access(&same_tenant_admin, &owner, &account));
}

#[test]
fn stale_prior_balance_is_a_concurrency_conflict() {
    let (mut bank, user, account_id) = bank_with(0);
    bank.deposit(&user, DepositInput { account_id, cents: 500 }, 0).unwrap();

    // an append computed from a stale baseline loses the race
    let stale = bank.store.append(
        account_id,
        TransactionKind::Deposit,
        Cents(10),
        Cents(0),
        1,
    );
    assert_eq!(stale.unwrap_err(), LedgerError::ConcurrencyConflict);

    let fresh = bank.store.append(
        account_id,
        TransactionKind::Deposit,
        Cents(10),
        Cents(500),
        1,
    );
    assert_eq!(fresh.unwrap().balance, Cents(510));
}

#[test]
fn unknown_accounts_and_users_are_not_found() {
    let (mut bank, user, _account_id) = bank_with(0);

    let deposit = bank.deposit(&user, DepositInput { account_id: 999, cents: 10 }, 0);
    assert_eq!(deposit.unwrap_err(), LedgerError::NotFound);

    let account = bank.open_account(42, 0);
    assert_eq!(account.unwrap_err(), LedgerError::NotFound);

    let approval = bank.approve_request(7, &user, 0);
    assert_eq!(approval.unwrap_err(), LedgerError::NotFound);

    assert_eq!(bank.get_balance(999), Cents(0));
    assert!(bank.latest_transaction(999).is_none());
}

#[test]
fn every_error_carries_a_message() {
    assert_eq!(LedgerError::InvalidAmount.message(), "Invalid amount");
    assert_eq!(LedgerError::InsufficientFunds.message(), "Insufficient funds");
    assert_eq!(LedgerError::Unauthorized.message(), "Unauthorised");
    assert_eq!(LedgerError::NotFound.message(), "Not found");
    assert_eq!(LedgerError::InvalidState.message(), "Invalid state");
    assert_eq!(LedgerError::ConcurrencyConflict.message(), "Concurrency conflict");
    assert_eq!(LedgerError::Internal.message(), "Internal error");
}

#[test]
fn accounts_are_independent() {
    let mut bank = Bank::new(InterestConfig { daily_rate_bps: 0 });
    let user = User { id: 1, client_id: 1, role: Role::Admin };
    assert!(bank.add_user(user));
    let a: Account = bank.open_account(user.id, 0).unwrap();
    let b: Account = bank.open_account(user.id, 0).unwrap();
    assert_ne!(a.id, b.id);

    bank.deposit(&user, DepositInput { account_id: a.id, cents: 100 }, 0).unwrap();
    bank.deposit(&user, DepositInput { account_id: b.id, cents: 30 }, 0).unwrap();
    bank.withdraw(&user, WithdrawalInput { account_id: b.id, cents: 10 }, 0).unwrap();

    assert_eq!(bank.get_balance(a.id), Cents(100));
    assert_eq!(bank.get_balance(b.id), Cents(20));
    assert_eq!(bank.transactions(a.id).len(), 1);
    assert_eq!(bank.transactions(b.id).len(), 2);
}

#[test]
fn money_arithmetic_is_checked() {
    assert_eq!(Cents(1).checked_add(Cents(2)), Some(Cents(3)));
    assert_eq!(Cents(i64::MAX).checked_add(Cents(1)), None);
    assert_eq!(Cents(5).checked_sub(Cents(7)), Some(Cents(-2)));
    assert_eq!(Cents(i64::MIN).checked_sub(Cents(1)), None);
}

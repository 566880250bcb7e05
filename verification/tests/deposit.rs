use ledger_core::bank::{Bank, DepositInput};
use ledger_core::interest::InterestConfig;
use ledger_core::model::{Role, TransactionKind, User};
use ledger_core::money::Cents;

fn setup() -> (Bank, User, i32) {
    let mut bank = Bank::new(InterestConfig { daily_rate_bps: 0 });
    let user = User { id: 1, client_id: 1, role: Role::Admin };
    assert!(bank.add_user(user));
    let account = bank.open_account(user.id, 0).unwrap();
    (bank, user, account.id)
}

#[test]
fn it_creates_a_transaction() {
    let (mut bank, user, account_id) = setup();

    let input = DepositInput { account_id, cents: 200 };

    let transaction = bank.deposit(&user, input, 0).unwrap();

    assert_eq!(transaction.account_id, account_id);
    assert_eq!(transaction.amount, Cents(200));
    assert_eq!(transaction.kind, TransactionKind::Deposit);
}

#[test]
fn it_fails_with_negative_amount() {
    let (mut bank, user, account_id) = setup();

    let input = DepositInput { account_id, cents: -200 };

    let result = bank.deposit(&user, input, 0);

    assert!(result.is_err());
}

#[test]
fn it_calculates_a_new_balance() {
    let (mut bank, user, account_id) = setup();

    // a prior transaction leaving the balance at 2
    bank.deposit(&user, DepositInput { account_id, cents: 2 }, 0).unwrap();

    let transaction = bank.deposit(&user, DepositInput { account_id, cents: 4 }, 0).unwrap();

    assert_eq!(transaction.balance, Cents(6));
}

#[test]
fn deposit_onto_existing_balance() {
    let (mut bank, user, account_id) = setup();
    bank.deposit(&user, DepositInput { account_id, cents: 200 }, 0).unwrap();

    let transaction = bank.deposit(&user, DepositInput { account_id, cents: 600 }, 0).unwrap();

    assert_eq!(transaction.kind, TransactionKind::Deposit);
    assert_eq!(transaction.amount, Cents(600));
    assert_eq!(transaction.balance, Cents(800));
    assert_eq!(bank.get_balance(account_id), Cents(800));
}

#[test]
fn first_deposit_starts_from_zero() {
    let (mut bank, user, account_id) = setup();

    let transaction = bank.deposit(&user, DepositInput { account_id, cents: 50 }, 0).unwrap();

    assert_eq!(transaction.kind, TransactionKind::Deposit);
    assert_eq!(transaction.amount, Cents(50));
    assert_eq!(transaction.balance, Cents(50));
}

#[test]
fn deposit_raises_balance_by_exactly_the_amount() {
    let (mut bank, user, account_id) = setup();
    bank.deposit(&user, DepositInput { account_id, cents: 123 }, 0).unwrap();
    let before = bank.get_balance(account_id);

    bank.deposit(&user, DepositInput { account_id, cents: 77 }, 0).unwrap();

    assert_eq!(bank.get_balance(account_id), Cents(before.0 + 77));
}

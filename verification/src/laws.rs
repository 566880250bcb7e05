//! The laws of the ledger, stated once and proved for every state: the
//! balance-chain shape of committed histories, serializability of repeated
//! deposits, idempotence of interest accrual, and the one-way life of a
//! transaction request.

use vstd::prelude::*;
use crate::bank::Bank;
use crate::model::{LedgerError, RequestState, Transaction, User, signed_amount};
use crate::store::LedgerStore;

verus! {

/// Law: along any committed history, each transaction's balance snapshot
/// extends the previous one by its signed amount — positive for deposits
/// and interest, negative for withdrawals — and the first entry starts
/// from a prior balance of zero.
pub proof fn lemma_balance_chain(s: LedgerStore, account_id: i32, k: int)
    requires
        s.wf(),
        0 <= k < s.txns_of(account_id).len(),
    ensures
        s.txns_of(account_id)[k].balance.0 == (if k == 0 {
            0int
        } else {
            s.txns_of(account_id)[k - 1].balance.0 as int
        }) + signed_amount(s.txns_of(account_id)[k]),
{
    assert(s.has_account(account_id));
    let i = choose|i: int|
        0 <= i < s.accounts@.len() && #[trigger] s.accounts@[i].account.id == account_id;
    s.lemma_history_at(i);
    assert(s.accounts@[i].entry_ok(s.next_txn_id as int, k));
}

/// One successful deposit of `d`, taken at a moment when no interest was
/// owed: the balance moves up by exactly `d`, one transaction is
/// committed, and its snapshot was computed from the pre-state balance.
pub open spec fn deposit_step(pre: Bank, post: Bank, account_id: i32, d: int) -> bool {
    &&& post.spec_balance(account_id) == pre.spec_balance(account_id) + d
    &&& post.txns_of(account_id).len() == pre.txns_of(account_id).len() + 1
    &&& post.txns_of(account_id).last().balance.0 == pre.spec_balance(account_id) + d
}

/// The contract of `deposit` yields a `deposit_step` whenever no interest
/// was owed at the moment of the deposit.
pub proof fn lemma_deposit_is_step(
    pre: Bank,
    post: Bank,
    account_id: i32,
    d: int,
    t: Transaction,
    as_of: int,
)
    requires
        pre.accrual_owed(account_id, as_of) == 0,
        t == pre.deposit_txn(account_id, d, as_of),
        post.txns_of(account_id) == pre.unit_txns(account_id, as_of, t),
        post.spec_balance(account_id) == pre.spec_balance(account_id) + pre.accrual_owed(
            account_id,
            as_of,
        ) + d,
        pre.spec_balance(account_id) + d <= i64::MAX,
        i64::MIN <= pre.spec_balance(account_id) + d,
    ensures
        deposit_step(pre, post, account_id, d),
{
    assert(post.txns_of(account_id) == pre.txns_of(account_id).push(t));
    assert(post.txns_of(account_id).last() == t);
}

/// Law: any serialization of N successful deposits of `d` each — each
/// unit committed from the balance the previous one left, as the store's
/// optimistic check enforces — raises the balance by exactly `N * d`,
/// commits exactly N transactions, and no two of the units were computed
/// from the same prior-balance baseline.
pub proof fn lemma_serial_deposits(states: Seq<Bank>, account_id: i32, d: int)
    requires
        states.len() >= 1,
        d > 0,
        forall|j: int|
            0 <= j < states.len() - 1 ==> #[trigger] deposit_step(
                states[j],
                states[j + 1],
                account_id,
                d,
            ),
    ensures
        forall|j: int|
            0 <= j < states.len() ==> #[trigger] states[j].spec_balance(account_id)
                == states[0].spec_balance(account_id) + j * d,
        states.last().spec_balance(account_id) == states[0].spec_balance(account_id) + (
        states.len() - 1) * d,
        states.last().txns_of(account_id).len() == states[0].txns_of(account_id).len()
            + states.len() - 1,
        forall|i: int, j: int|
            0 <= i < j < states.len() ==> states[i].spec_balance(account_id)
                != states[j].spec_balance(account_id),
    decreases states.len(),
{
    let n = states.len() as int;
    if n == 1 {
        assert(states[0].spec_balance(account_id) == states[0].spec_balance(account_id) + 0 * d);
    } else {
        let init = states.drop_last();
        assert forall|j: int| 0 <= j < init.len() - 1 implies #[trigger] deposit_step(
            init[j],
            init[j + 1],
            account_id,
            d,
        ) by {
            assert(deposit_step(states[j], states[j + 1], account_id, d));
        }
        lemma_serial_deposits(init, account_id, d);
        assert(deposit_step(states[n - 2], states[(n - 2) + 1], account_id, d));
        assert(deposit_step(states[n - 2], states[n - 1], account_id, d));
        assert forall|j: int| 0 <= j < n implies #[trigger] states[j].spec_balance(account_id)
            == states[0].spec_balance(account_id) + j * d by {
            if j < n - 1 {
                assert(init[j] == states[j]);
                assert(init[0] == states[0]);
            } else {
                assert(states[n - 2].spec_balance(account_id) == states[0].spec_balance(
                    account_id,
                ) + (n - 2) * d);
                assert((n - 1) * d == (n - 2) * d + d) by (nonlinear_arith);
            }
        }
        assert forall|i: int, j: int| 0 <= i < j < n implies states[i].spec_balance(account_id)
            != states[j].spec_balance(account_id) by {
            assert(i * d < j * d) by (nonlinear_arith)
                requires
                    i < j,
                    d > 0,
            ;
        }
    }
}

/// Law: interest accrual is idempotent in an instant. Once the accrual at
/// `as_of` has posted its interest transaction, the window since the
/// latest transaction is empty, so the interest owed at `as_of` is zero
/// and a second accrual posts nothing.
pub proof fn lemma_accrual_idempotent(pre: Bank, post: Bank, account_id: i32, as_of: int)
    requires
        i64::MIN <= as_of <= i64::MAX,
        pre.accrual_owed(account_id, as_of) > 0,
        post.txns_of(account_id) == pre.txns_of(account_id).push(
            pre.accrual_txn(account_id, as_of),
        ),
        post.config == pre.config,
    ensures
        post.accrual_owed(account_id, as_of) == 0,
{
    assert(post.txns_of(account_id).last() == pre.accrual_txn(account_id, as_of));
    assert(post.accrual_since(account_id) == as_of);
}

/// Law: a transaction request's life is one-way. On a request that has
/// already reached a terminal state, both deciding operations are owed
/// exactly `InvalidState` — no second transition is ever recorded.
pub proof fn lemma_terminal_request_is_final(b: Bank, request_id: i32, approver: User, as_of: int)
    requires
        b.has_request(request_id),
        b.request_of(request_id).state != RequestState::Pending,
    ensures
        b.approve_check(request_id, approver, as_of) == Some(LedgerError::InvalidState),
        b.reject_check(request_id, approver) == Some(LedgerError::InvalidState),
{
}

} // verus!

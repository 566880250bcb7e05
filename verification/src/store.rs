//! The ledger store: per account an append-only history of transactions.
//! The balance of an account is the snapshot carried by its latest
//! transaction (zero while the history is empty), and every committed entry
//! extends the previous snapshot by its signed amount. `append` performs the
//! optimistic prior-balance check, so no two successful appends to one
//! account are ever computed from the same prior balance.

use vstd::prelude::*;
use crate::model::{Account, LedgerError, Transaction, TransactionKind, signed_amount};
use crate::money::Cents;

verus! {

/// One account together with its committed transactions, oldest first.
pub struct AccountHistory {
    pub account: Account,
    pub txns: Vec<Transaction>,
}

/// The balance an entry at position `k` was computed from: the snapshot of
/// the entry before it, or zero for the first entry.
pub open spec fn prior_balance_at(txns: Seq<Transaction>, k: int) -> int {
    if k == 0 {
        0
    } else {
        txns[k - 1].balance.0 as int
    }
}

impl AccountHistory {
    /// The entry at position `k` belongs to this account, records a positive
    /// magnitude, keeps the balance non-negative, extends the previous
    /// snapshot by its signed amount, and carries an identifier below
    /// `next_id` and above its predecessor's.
    pub open spec fn entry_ok(self, next_id: int, k: int) -> bool {
        let t = self.txns@[k];
        &&& t.account_id == self.account.id
        &&& t.amount.0 > 0
        &&& t.balance.0 >= 0
        &&& t.balance.0 == prior_balance_at(self.txns@, k) + signed_amount(t)
        &&& t.id < next_id
        &&& k >= 1 ==> self.txns@[k - 1].id < t.id
    }

    /// `entry_ok` holds of every entry of the history.
    pub open spec fn chain_ok(self, next_id: int) -> bool {
        forall|k: int| 0 <= k < self.txns@.len() ==> #[trigger] self.entry_ok(next_id, k)
    }
}

/// The single shared mutable resource of the system: the only writer of
/// committed transactions.
pub struct LedgerStore {
    pub accounts: Vec<AccountHistory>,
    pub next_txn_id: i32,
}

impl LedgerStore {
    /// Account identifiers are distinct and every history is well chained.
    pub open spec fn wf(self) -> bool {
        &&& forall|i: int, j: int|
            #![trigger self.accounts@[i].account.id, self.accounts@[j].account.id]
            0 <= i < j < self.accounts@.len()
                ==> self.accounts@[i].account.id != self.accounts@[j].account.id
        &&& forall|i: int|
            #![trigger self.accounts@[i]]
            0 <= i < self.accounts@.len()
                ==> self.accounts@[i].chain_ok(self.next_txn_id as int)
    }

    /// Whether an account with this identifier exists.
    pub open spec fn has_account(self, id: i32) -> bool {
        exists|i: int|
            0 <= i < self.accounts@.len() && #[trigger] self.accounts@[i].account.id == id
    }

    /// The history of the account with this identifier (meaningful when
    /// `has_account(id)` and the store is well formed).
    pub open spec fn history_of(self, id: i32) -> AccountHistory {
        self.accounts@[choose|i: int|
            0 <= i < self.accounts@.len() && #[trigger] self.accounts@[i].account.id == id]
    }

    /// The committed transactions of an account, oldest first; empty for an
    /// unknown account.
    pub open spec fn txns_of(self, id: i32) -> Seq<Transaction> {
        if self.has_account(id) {
            self.history_of(id).txns@
        } else {
            Seq::empty()
        }
    }

    /// The account record behind an identifier.
    pub open spec fn account_of(self, id: i32) -> Account {
        self.history_of(id).account
    }

    /// The latest committed transaction of an account, if any.
    pub open spec fn spec_latest(self, id: i32) -> Option<Transaction> {
        if self.txns_of(id).len() > 0 {
            Some(self.txns_of(id).last())
        } else {
            None
        }
    }

    /// The derived balance of an account: the latest snapshot, or zero.
    pub open spec fn spec_balance(self, id: i32) -> int {
        match self.spec_latest(id) {
            Some(t) => t.balance.0 as int,
            None => 0,
        }
    }

    /// Both stores hold the same accounts in the same order, and every
    /// account other than `id` holds the same history.
    pub open spec fn same_accounts_except(self, other: LedgerStore, id: i32) -> bool {
        &&& self.accounts@.len() == other.accounts@.len()
        &&& forall|i: int|
            #![trigger self.accounts@[i]]
            0 <= i < self.accounts@.len()
                ==> self.accounts@[i].account == other.accounts@[i].account
        &&& forall|i: int|
            #![trigger self.accounts@[i]]
            0 <= i < self.accounts@.len() && self.accounts@[i].account.id != id
                ==> self.accounts@[i] == other.accounts@[i]
    }

    /// In a well-formed store the index of an account is the one `choose`
    /// picks: positions and identifiers determine each other.
    pub proof fn lemma_history_at(self, i: int)
        requires
            self.wf(),
            0 <= i < self.accounts@.len(),
        ensures
            self.has_account(self.accounts@[i].account.id),
            self.history_of(self.accounts@[i].account.id) == self.accounts@[i],
    {
        let id = self.accounts@[i].account.id;
        assert(self.has_account(id));
        let j = choose|j: int|
            0 <= j < self.accounts@.len() && #[trigger] self.accounts@[j].account.id == id;
        if i < j {
            assert(self.accounts@[i].account.id != self.accounts@[j].account.id);
        } else if j < i {
            assert(self.accounts@[j].account.id != self.accounts@[i].account.id);
        }
    }

    /// A well-formed store never shows a negative balance.
    pub proof fn lemma_balance_nonneg(self, id: i32)
        requires
            self.wf(),
        ensures
            self.spec_balance(id) >= 0,
    {
        if self.has_account(id) {
            let j = choose|j: int|
                0 <= j < self.accounts@.len() && #[trigger] self.accounts@[j].account.id == id;
            self.lemma_history_at(j);
            if self.txns_of(id).len() > 0 {
                assert(self.accounts@[j].entry_ok(
                    self.next_txn_id as int,
                    self.txns_of(id).len() - 1,
                ));
            }
        }
    }

    /// What `same_accounts_except` means for one other account: the two
    /// stores agree on its existence, record and history.
    pub proof fn lemma_frame_one(pre: LedgerStore, post: LedgerStore, id: i32, x: i32)
        requires
            pre.wf(),
            post.wf(),
            post.same_accounts_except(pre, id),
        ensures
            post.has_account(x) <==> pre.has_account(x),
            pre.has_account(x) ==> post.account_of(x) == pre.account_of(x),
            x != id ==> post.txns_of(x) == pre.txns_of(x),
    {
        if post.has_account(x) {
            let i = choose|i: int|
                0 <= i < post.accounts@.len() && #[trigger] post.accounts@[i].account.id == x;
            assert(pre.accounts@[i].account.id == x);
        }
        if pre.has_account(x) {
            let i = choose|i: int|
                0 <= i < pre.accounts@.len() && #[trigger] pre.accounts@[i].account.id == x;
            assert(post.accounts@[i].account.id == x);
            pre.lemma_history_at(i);
            post.lemma_history_at(i);
        }
    }

    /// `same_accounts_except` composes along a chain of changes to the
    /// same account.
    pub proof fn lemma_same_accounts_trans(a: LedgerStore, b: LedgerStore, c: LedgerStore, id: i32)
        requires
            b.same_accounts_except(a, id),
            c.same_accounts_except(b, id),
        ensures
            c.same_accounts_except(a, id),
    {
        assert forall|i: int| 0 <= i < c.accounts@.len() implies
            (#[trigger] c.accounts@[i]).account == a.accounts@[i].account by {
            assert(b.accounts@[i].account == a.accounts@[i].account);
        }
        assert forall|i: int|
            0 <= i < c.accounts@.len() && c.accounts@[i].account.id != id implies
            #[trigger] c.accounts@[i] == a.accounts@[i] by {
            assert(b.accounts@[i] == a.accounts@[i]);
        }
    }

    /// Index of the account with this identifier, if it exists.
    pub(crate) fn find_account(&self, id: i32) -> (r: Option<usize>)
        ensures
            match r {
                Some(i) => i < self.accounts@.len() && self.accounts@[i as int].account.id == id,
                None => !self.has_account(id),
            },
    {
        let mut i: usize = 0;
        while i < self.accounts.len()
            invariant
                i <= self.accounts@.len(),
                forall|j: int| 0 <= j < i ==> #[trigger] self.accounts@[j].account.id != id,
            decreases self.accounts@.len() - i,
        {
            if self.accounts[i].account.id == id {
                return Some(i);
            }
            i += 1;
        }
        None
    }

    /// The account record behind an identifier, if it exists.
    pub fn find_account_record(&self, id: i32) -> (r: Option<Account>)
        requires
            self.wf(),
        ensures
            match r {
                Some(a) => self.has_account(id) && a == self.account_of(id),
                None => !self.has_account(id),
            },
    {
        match self.find_account(id) {
            Some(i) => {
                proof {
                    self.lemma_history_at(i as int);
                }
                Some(self.accounts[i].account)
            },
            None => None,
        }
    }

    /// The latest committed transaction of an account, or `None` for an
    /// empty history or an unknown account.
    pub fn latest_transaction(&self, account_id: i32) -> (r: Option<Transaction>)
        requires
            self.wf(),
        ensures
            r == self.spec_latest(account_id),
    {
        match self.find_account(account_id) {
            None => None,
            Some(i) => {
                proof {
                    self.lemma_history_at(i as int);
                }
                let h = &self.accounts[i];
                let n = h.txns.len();
                if n == 0 {
                    None
                } else {
                    Some(h.txns[n - 1])
                }
            },
        }
    }

    /// A copy of an account's committed transactions, oldest first; empty
    /// for an unknown account.
    pub fn transactions(&self, account_id: i32) -> (v: Vec<Transaction>)
        requires
            self.wf(),
        ensures
            v@ == self.txns_of(account_id),
    {
        let mut v: Vec<Transaction> = Vec::new();
        let idx = match self.find_account(account_id) {
            Some(i) => i,
            None => {
                proof {
                    assert(v@ =~= self.txns_of(account_id));
                }
                return v;
            },
        };
        proof {
            self.lemma_history_at(idx as int);
        }
        let n = self.accounts[idx].txns.len();
        let mut i: usize = 0;
        while i < n
            invariant
                self.wf(),
                idx < self.accounts@.len(),
                self.accounts@[idx as int].account.id == account_id,
                n == self.accounts@[idx as int].txns@.len(),
                i <= n,
                v@ == self.accounts@[idx as int].txns@.subrange(0, i as int),
            decreases n - i,
        {
            v.push(self.accounts[idx].txns[i]);
            proof {
                assert(v@ =~= self.accounts@[idx as int].txns@.subrange(0, i + 1 as int));
            }
            i += 1;
        }
        proof {
            self.lemma_history_at(idx as int);
            assert(v@ =~= self.txns_of(account_id));
        }
        v
    }

    /// The balance of an account: the latest snapshot, or zero while no
    /// transaction exists (also for an unknown account).
    pub fn get_balance(&self, account_id: i32) -> (b: Cents)
        requires
            self.wf(),
        ensures
            b.0 == self.spec_balance(account_id),
    {
        match self.latest_transaction(account_id) {
            Some(t) => t.balance,
            None => Cents(0),
        }
    }

    /// The first reason an append must fail, or `None` when it is owed
    /// success: non-positive magnitudes are invalid, an exhausted identifier
    /// space or an overflowing balance is internal, an unknown account is
    /// not found, a stale prior balance is a concurrency conflict, and a
    /// withdrawal past the balance has insufficient funds.
    pub open spec fn append_check(
        self,
        account_id: i32,
        kind: TransactionKind,
        amount: Cents,
        expected_prior: Cents,
    ) -> Option<LedgerError> {
        if amount.0 <= 0 {
            Some(LedgerError::InvalidAmount)
        } else if self.next_txn_id == i32::MAX {
            Some(LedgerError::Internal)
        } else if !self.has_account(account_id) {
            Some(LedgerError::NotFound)
        } else if expected_prior.0 != self.spec_balance(account_id) {
            Some(LedgerError::ConcurrencyConflict)
        } else if kind == TransactionKind::Withdrawal
            && amount.0 > self.spec_balance(account_id) {
            Some(LedgerError::InsufficientFunds)
        } else if kind != TransactionKind::Withdrawal
            && self.spec_balance(account_id) + amount.0 > i64::MAX {
            Some(LedgerError::Internal)
        } else {
            None
        }
    }

    /// The snapshot a successful append writes: the prior balance moved by
    /// the signed amount.
    pub open spec fn appended_balance(self, account_id: i32, kind: TransactionKind, amount: Cents) -> int {
        if kind == TransactionKind::Withdrawal {
            self.spec_balance(account_id) - amount.0
        } else {
            self.spec_balance(account_id) + amount.0
        }
    }

    /// Commit one transaction. The entry is computed from the latest
    /// balance, which must equal `expected_prior`; on any failure the store
    /// is unchanged and the error is the first failing check.
    #[verifier::rlimit(100)]
    pub fn append(
        &mut self,
        account_id: i32,
        kind: TransactionKind,
        amount: Cents,
        expected_prior: Cents,
        now: i64,
    ) -> (r: Result<Transaction, LedgerError>)
        requires
            old(self).wf(),
        ensures
            final(self).wf(),
            match r {
                Ok(t) => {
                    &&& old(self).append_check(account_id, kind, amount, expected_prior)
                        is None
                    &&& t == (Transaction {
                        id: old(self).next_txn_id,
                        account_id,
                        kind,
                        amount,
                        balance: Cents(
                            old(self).appended_balance(account_id, kind, amount) as i64,
                        ),
                        created_at: now,
                    })
                    &&& final(self).txns_of(account_id) == old(self).txns_of(account_id).push(t)
                    &&& final(self).same_accounts_except(*old(self), account_id)
                    &&& final(self).next_txn_id == old(self).next_txn_id + 1
                },
                Err(e) => {
                    &&& *final(self) == *old(self)
                    &&& old(self).append_check(account_id, kind, amount, expected_prior)
                        == Some(e)
                },
            },
    {
        if amount.0 <= 0 {
            return Err(LedgerError::InvalidAmount);
        }
        if self.next_txn_id == i32::MAX {
            return Err(LedgerError::Internal);
        }
        let idx = match self.find_account(account_id) {
            Some(i) => i,
            None => {
                return Err(LedgerError::NotFound);
            },
        };
        proof {
            self.lemma_history_at(idx as int);
        }
        let n = self.accounts[idx].txns.len();
        let prior: i64 = if n == 0 {
            0
        } else {
            self.accounts[idx].txns[n - 1].balance.0
        };
        proof {
            if n > 0 {
                assert(self.accounts@[idx as int].entry_ok(self.next_txn_id as int, n - 1));
            }
            assert(prior == self.spec_balance(account_id));
            assert(prior >= 0);
        }
        if expected_prior.0 != prior {
            return Err(LedgerError::ConcurrencyConflict);
        }
        let new_bal: i64 = match kind {
            TransactionKind::Withdrawal => {
                if amount.0 > prior {
                    return Err(LedgerError::InsufficientFunds);
                }
                prior - amount.0
            },
            _ => {
                match prior.checked_add(amount.0) {
                    Some(v) => v,
                    None => {
                        return Err(LedgerError::Internal);
                    },
                }
            },
        };
        let t = Transaction {
            id: self.next_txn_id,
            account_id,
            kind,
            amount,
            balance: Cents(new_bal),
            created_at: now,
        };
        let ghost pre = *self;
        let h = &mut self.accounts[idx];
        h.txns.push(t);
        self.next_txn_id = self.next_txn_id + 1;
        proof {
            let post = *self;
            let next = post.next_txn_id as int;
            assert forall|i: int| 0 <= i < post.accounts@.len() implies
                (#[trigger] post.accounts@[i]).chain_ok(next) by {
                let hist = post.accounts@[i];
                assert forall|k: int| 0 <= k < hist.txns@.len() implies
                    #[trigger] hist.entry_ok(next, k) by {
                    if i == idx {
                        if k < hist.txns@.len() - 1 {
                            assert(pre.accounts@[i].entry_ok(pre.next_txn_id as int, k));
                            assert(hist.txns@[k] == pre.accounts@[i].txns@[k]);
                            assert(prior_balance_at(hist.txns@, k)
                                == prior_balance_at(pre.accounts@[i].txns@, k));
                        } else {
                            if k >= 1 {
                                assert(pre.accounts@[i].entry_ok(pre.next_txn_id as int, k - 1));
                            }
                        }
                    } else {
                        assert(pre.accounts@[i].entry_ok(pre.next_txn_id as int, k));
                        assert(hist == pre.accounts@[i]);
                    }
                }
            }
            assert(post.wf());
            assert(post.same_accounts_except(pre, account_id));
            pre.lemma_history_at(idx as int);
            post.lemma_history_at(idx as int);
            assert(post.txns_of(account_id) =~= pre.txns_of(account_id).push(t));
        }
        Ok(t)
    }
}

} // verus!

//! The processing engine around the ledger store: a user directory for the
//! authorization gate, account opening, interest accrual, and the deposit
//! and withdrawal use cases. The approval workflow around them lives in
//! the requests module.
//!
//! Every operation is one atomic unit: on any error the engine is exactly
//! as it was, with nothing partially applied.

use vstd::prelude::*;
use crate::auth::{can_access, spec_can_access};
use crate::interest::{InterestConfig, compute_interest, interest_amount, interest_overflows};
use crate::model::{Account, LedgerError, Transaction, TransactionKind, TransactionRequest, User};
use crate::money::Cents;
use crate::store::{AccountHistory, LedgerStore};

verus! {

/// Input of the deposit use case: the target account and the amount in
/// cents.
#[derive(Clone, Copy, Debug, PartialEq, Eq, Structural)]
pub struct DepositInput {
    pub account_id: i32,
    pub cents: i32,
}

/// Input of the withdrawal use case: the target account and the amount in
/// cents.
#[derive(Clone, Copy, Debug, PartialEq, Eq, Structural)]
pub struct WithdrawalInput {
    pub account_id: i32,
    pub cents: i32,
}

/// The engine: the ledger store (sole writer of transactions), the user
/// directory read by the authorization gate, the open transaction requests,
/// and the accrual configuration.
pub struct Bank {
    pub store: LedgerStore,
    pub users: Vec<User>,
    pub requests: Vec<TransactionRequest>,
    pub next_account_id: i32,
    pub next_request_id: i32,
    pub config: InterestConfig,
}

impl Bank {
    /// The request at position `k` carries a fresh identifier, a positive
    /// amount, and proposes something the workflow can execute.
    pub open spec fn request_ok(self, k: int) -> bool {
        let q = self.requests@[k];
        &&& q.id < self.next_request_id
        &&& q.amount.0 > 0
        &&& q.kind != TransactionKind::Interest
    }

    /// The engine invariant: a well-formed store, fresh account
    /// identifiers, and distinct users and requests.
    pub open spec fn wf(self) -> bool {
        &&& self.store.wf()
        &&& forall|i: int|
            #![trigger self.store.accounts@[i]]
            0 <= i < self.store.accounts@.len()
                ==> self.store.accounts@[i].account.id < self.next_account_id
        &&& forall|i: int, j: int|
            #![trigger self.users@[i].id, self.users@[j].id]
            0 <= i < j < self.users@.len() ==> self.users@[i].id != self.users@[j].id
        &&& forall|k: int| 0 <= k < self.requests@.len() ==> #[trigger] self.request_ok(k)
        &&& forall|k1: int, k2: int|
            #![trigger self.requests@[k1].id, self.requests@[k2].id]
            0 <= k1 < k2 < self.requests@.len()
                ==> self.requests@[k1].id != self.requests@[k2].id
    }

    // ------------------------------------------------------------------
    // Views onto the store.

    pub open spec fn has_account(self, id: i32) -> bool {
        self.store.has_account(id)
    }

    pub open spec fn account_of(self, id: i32) -> Account {
        self.store.account_of(id)
    }

    pub open spec fn txns_of(self, id: i32) -> Seq<Transaction> {
        self.store.txns_of(id)
    }

    pub open spec fn spec_latest(self, id: i32) -> Option<Transaction> {
        self.store.spec_latest(id)
    }

    pub open spec fn spec_balance(self, id: i32) -> int {
        self.store.spec_balance(id)
    }

    // ------------------------------------------------------------------
    // The user directory.

    pub open spec fn has_user(self, id: i32) -> bool {
        exists|i: int| 0 <= i < self.users@.len() && #[trigger] self.users@[i].id == id
    }

    pub open spec fn user_of(self, id: i32) -> User {
        self.users@[choose|i: int| 0 <= i < self.users@.len() && #[trigger] self.users@[i].id == id]
    }

    /// Whether the account exists and its owning user is in the directory.
    pub open spec fn has_owner(self, account_id: i32) -> bool {
        self.has_account(account_id) && self.has_user(self.account_of(account_id).user_id)
    }

    /// The user owning an account (meaningful under `has_owner`).
    pub open spec fn owner_of(self, account_id: i32) -> User {
        self.user_of(self.account_of(account_id).user_id)
    }

    /// In a well-formed engine the position of a user is the one `choose`
    /// picks.
    pub proof fn lemma_user_at(self, i: int)
        requires
            self.wf(),
            0 <= i < self.users@.len(),
        ensures
            self.has_user(self.users@[i].id),
            self.user_of(self.users@[i].id) == self.users@[i],
    {
        let id = self.users@[i].id;
        assert(self.has_user(id));
        let j = choose|j: int| 0 <= j < self.users@.len() && #[trigger] self.users@[j].id == id;
        if i < j {
            assert(self.users@[i].id != self.users@[j].id);
        } else if j < i {
            assert(self.users@[j].id != self.users@[i].id);
        }
    }

    /// What a change confined to one account means for every account: the
    /// others keep their existence, record and history.
    pub proof fn lemma_account_frame(pre: Bank, post: Bank, id: i32)
        requires
            pre.store.wf(),
            post.store.wf(),
            post.store.same_accounts_except(pre.store, id),
        ensures
            forall|x: i32| (#[trigger] post.has_account(x) <==> pre.has_account(x)),
            forall|x: i32| pre.has_account(x) ==> #[trigger] post.account_of(x)
                == pre.account_of(x),
            forall|x: i32| x != id ==> #[trigger] post.txns_of(x) == pre.txns_of(x),
    {
        assert forall|x: i32| (#[trigger] post.has_account(x) <==> pre.has_account(x)) by {
            LedgerStore::lemma_frame_one(pre.store, post.store, id, x);
        }
        assert forall|x: i32| pre.has_account(x) implies #[trigger] post.account_of(x)
            == pre.account_of(x) by {
            LedgerStore::lemma_frame_one(pre.store, post.store, id, x);
        }
        assert forall|x: i32| x != id implies #[trigger] post.txns_of(x) == pre.txns_of(x) by {
            LedgerStore::lemma_frame_one(pre.store, post.store, id, x);
        }
    }

    /// A change confined to account histories preserves the engine
    /// invariant: the records, the directory and the requests still stand.
    pub proof fn lemma_wf_after_store_change(pre: Bank, post: Bank)
        requires
            pre.wf(),
            post.store.wf(),
            post.store.accounts@.len() == pre.store.accounts@.len(),
            forall|i: int|
                #![trigger post.store.accounts@[i]]
                0 <= i < pre.store.accounts@.len()
                    ==> post.store.accounts@[i].account == pre.store.accounts@[i].account,
            post.users@ == pre.users@,
            post.requests@ == pre.requests@,
            post.next_account_id == pre.next_account_id,
            post.next_request_id == pre.next_request_id,
        ensures
            post.wf(),
    {
        assert forall|i: int| 0 <= i < post.store.accounts@.len() implies
            (#[trigger] post.store.accounts@[i]).account.id < post.next_account_id by {
            assert(pre.store.accounts@[i].account.id < pre.next_account_id);
        }
        assert forall|k: int| 0 <= k < post.requests@.len() implies
            #[trigger] post.request_ok(k) by {
            assert(pre.request_ok(k));
        }
    }

    /// After one account was added at position `n`, every other account's
    /// existence, history and record are as they were.
    proof fn lemma_other_account(pre: Bank, post: Bank, new_id: i32, x: i32, n: int)
        requires
            pre.store.wf(),
            post.store.wf(),
            n == pre.store.accounts@.len(),
            post.store.accounts@.len() == n + 1,
            forall|i: int|
                #![trigger post.store.accounts@[i]]
                0 <= i < n ==> post.store.accounts@[i] == pre.store.accounts@[i],
            post.store.accounts@[n].account.id == new_id,
            x != new_id,
        ensures
            post.store.has_account(x) <==> pre.store.has_account(x),
            post.store.txns_of(x) == pre.store.txns_of(x),
            pre.store.has_account(x) ==> post.store.account_of(x) == pre.store.account_of(x),
    {
        if post.store.has_account(x) {
            let i = choose|i: int|
                0 <= i < post.store.accounts@.len()
                    && #[trigger] post.store.accounts@[i].account.id == x;
            assert(i != n);
            assert(pre.store.accounts@[i].account.id == x);
        }
        if pre.store.has_account(x) {
            let i = choose|i: int|
                0 <= i < pre.store.accounts@.len()
                    && #[trigger] pre.store.accounts@[i].account.id == x;
            assert(post.store.accounts@[i].account.id == x);
            pre.store.lemma_history_at(i);
            post.store.lemma_history_at(i);
        }
    }

    /// Nothing outside the store differs between the two engines, and
    /// every directory and request lookup answers as before.
    pub open spec fn directory_unchanged(self, pre: Bank) -> bool {
        &&& self.users@ == pre.users@
        &&& self.requests@ == pre.requests@
        &&& self.next_account_id == pre.next_account_id
        &&& self.next_request_id == pre.next_request_id
        &&& self.config == pre.config
        &&& forall|x: i32| #[trigger] self.has_user(x) <==> pre.has_user(x)
        &&& forall|x: i32| pre.has_user(x) ==> #[trigger] self.user_of(x) == pre.user_of(x)
        &&& forall|x: i32| #[trigger] self.has_request(x) <==> pre.has_request(x)
        &&& forall|x: i32| pre.has_request(x) ==> #[trigger] self.request_of(x)
            == pre.request_of(x)
    }

    /// Two engines with the same user vector agree on every directory
    /// lookup.
    pub proof fn lemma_users_frame(pre: Bank, post: Bank)
        requires
            pre.wf(),
            post.users@ == pre.users@,
        ensures
            forall|x: i32| #[trigger] post.has_user(x) <==> pre.has_user(x),
            forall|x: i32| pre.has_user(x) ==> #[trigger] post.user_of(x) == pre.user_of(x),
    {
        assert forall|x: i32| #[trigger] post.has_user(x) <==> pre.has_user(x) by {
            if post.has_user(x) {
                let i = choose|i: int|
                    0 <= i < post.users@.len() && #[trigger] post.users@[i].id == x;
                assert(pre.users@[i].id == x);
            }
            if pre.has_user(x) {
                let i = choose|i: int|
                    0 <= i < pre.users@.len() && #[trigger] pre.users@[i].id == x;
                assert(post.users@[i].id == x);
            }
        }
        assert forall|x: i32| pre.has_user(x) implies #[trigger] post.user_of(x)
            == pre.user_of(x) by {
            let i = choose|i: int| 0 <= i < pre.users@.len() && #[trigger] pre.users@[i].id == x;
            pre.lemma_user_at(i);
            let j = choose|j: int|
                0 <= j < post.users@.len() && #[trigger] post.users@[j].id == x;
            assert(pre.users@[j].id == x);
            if i < j {
                assert(pre.users@[i].id != pre.users@[j].id);
            } else if j < i {
                assert(pre.users@[j].id != pre.users@[i].id);
            }
        }
    }

    // ------------------------------------------------------------------
    // Construction and registration.

    /// A fresh engine with no users, no accounts and no requests.
    pub fn new(config: InterestConfig) -> (b: Bank)
        ensures
            b.wf(),
            b.users@.len() == 0,
            b.requests@.len() == 0,
            b.store.accounts@.len() == 0,
            b.config == config,
            b.next_account_id == 1,
            b.next_request_id == 1,
            b.store.next_txn_id == 1,
            forall|x: i32| !(#[trigger] b.has_account(x)),
            forall|x: i32| !(#[trigger] b.has_user(x)),
            forall|x: i32| !(#[trigger] b.has_request(x)),
    {
        Bank {
            store: LedgerStore { accounts: Vec::new(), next_txn_id: 1 },
            users: Vec::new(),
            requests: Vec::new(),
            next_account_id: 1,
            next_request_id: 1,
            config,
        }
    }

    /// Index of the user with this identifier, if any.
    fn find_user_index(&self, id: i32) -> (r: Option<usize>)
        ensures
            match r {
                Some(i) => i < self.users@.len() && self.users@[i as int].id == id,
                None => !self.has_user(id),
            },
    {
        let mut i: usize = 0;
        while i < self.users.len()
            invariant
                i <= self.users@.len(),
                forall|j: int| 0 <= j < i ==> #[trigger] self.users@[j].id != id,
            decreases self.users@.len() - i,
        {
            if self.users[i].id == id {
                return Some(i);
            }
            i += 1;
        }
        None
    }

    /// The user with this identifier, if any.
    pub fn find_user(&self, id: i32) -> (r: Option<User>)
        requires
            self.wf(),
        ensures
            match r {
                Some(u) => self.has_user(id) && u == self.user_of(id),
                None => !self.has_user(id),
            },
    {
        match self.find_user_index(id) {
            Some(i) => {
                proof {
                    self.lemma_user_at(i as int);
                }
                Some(self.users[i])
            },
            None => None,
        }
    }

    /// Register a user in the directory. Nothing is added when the
    /// identifier is already taken.
    pub fn add_user(&mut self, user: User) -> (added: bool)
        requires
            old(self).wf(),
        ensures
            final(self).wf(),
            added <==> !old(self).has_user(user.id),
            added ==> final(self).users@ == old(self).users@.push(user),
            !added ==> *final(self) == *old(self),
            final(self).store == old(self).store,
            final(self).requests@ == old(self).requests@,
            final(self).next_request_id == old(self).next_request_id,
            final(self).next_account_id == old(self).next_account_id,
            final(self).config == old(self).config,
            final(self).has_user(user.id),
            added ==> final(self).user_of(user.id) == user,
            forall|x: i32| x != user.id
                ==> (#[trigger] final(self).has_user(x) <==> old(self).has_user(x)),
            forall|x: i32| x != user.id && old(self).has_user(x)
                ==> #[trigger] final(self).user_of(x) == old(self).user_of(x),
            forall|x: i32| #[trigger] final(self).has_request(x) <==> old(self).has_request(x),
            forall|x: i32| old(self).has_request(x)
                ==> #[trigger] final(self).request_of(x) == old(self).request_of(x),
    {
        match self.find_user_index(user.id) {
            Some(_) => false,
            None => {
                let ghost pre = *self;
                self.users.push(user);
                proof {
                    let post = *self;
                    let n = pre.users@.len() as int;
                    assert(post.users@[n] == user);
                    assert forall|i: int, j: int|
                        0 <= i < j < post.users@.len() implies #[trigger] post.users@[i].id
                        != #[trigger] post.users@[j].id by {
                        if j < n {
                            assert(pre.users@[i].id != pre.users@[j].id);
                        } else {
                            assert(post.users@[i] == pre.users@[i]);
                            assert(!pre.has_user(user.id));
                        }
                    }
                    assert forall|k: int| 0 <= k < post.requests@.len() implies
                        #[trigger] post.request_ok(k) by {
                        assert(pre.request_ok(k));
                    }
                    assert(post.wf());
                    post.lemma_user_at(n);
                    assert forall|x: i32| x != user.id implies (#[trigger] post.has_user(x)
                        <==> pre.has_user(x)) by {
                        if post.has_user(x) {
                            let i = choose|i: int|
                                0 <= i < post.users@.len() && #[trigger] post.users@[i].id == x;
                            assert(pre.users@[i].id == x);
                        }
                        if pre.has_user(x) {
                            let i = choose|i: int|
                                0 <= i < pre.users@.len() && #[trigger] pre.users@[i].id == x;
                            assert(post.users@[i].id == x);
                        }
                    }
                    assert forall|x: i32| x != user.id && pre.has_user(x) implies
                        #[trigger] post.user_of(x) == pre.user_of(x) by {
                        let i = choose|i: int|
                            0 <= i < pre.users@.len() && #[trigger] pre.users@[i].id == x;
                        pre.lemma_user_at(i);
                        post.lemma_user_at(i);
                    }
                    Bank::lemma_requests_frame(pre, post);
                }
                true
            },
        }
    }

    /// Open a fresh account for a registered user. The new account has an
    /// empty history and therefore balance zero.
    pub fn open_account(&mut self, user_id: i32, now: i64) -> (r: Result<Account, LedgerError>)
        requires
            old(self).wf(),
        ensures
            final(self).wf(),
            match r {
                Ok(a) => {
                    &&& old(self).has_user(user_id)
                    &&& old(self).next_account_id != i32::MAX
                    &&& a == (Account { id: old(self).next_account_id, user_id, created_at: now })
                    &&& !old(self).has_account(a.id)
                    &&& final(self).has_account(a.id)
                    &&& final(self).account_of(a.id) == a
                    &&& final(self).txns_of(a.id) == Seq::<Transaction>::empty()
                    &&& final(self).spec_balance(a.id) == 0
                    &&& forall|x: i32| x != a.id
                        ==> (#[trigger] final(self).has_account(x) <==> old(self).has_account(x))
                    &&& forall|x: i32| x != a.id
                        ==> #[trigger] final(self).txns_of(x) == old(self).txns_of(x)
                    &&& forall|x: i32| x != a.id && old(self).has_account(x)
                        ==> #[trigger] final(self).account_of(x) == old(self).account_of(x)
                    &&& final(self).store.accounts@.len()
                        == old(self).store.accounts@.len() + 1
                    &&& final(self).store.next_txn_id == old(self).store.next_txn_id
                    &&& final(self).users@ == old(self).users@
                    &&& final(self).requests@ == old(self).requests@
                    &&& final(self).next_request_id == old(self).next_request_id
                    &&& final(self).config == old(self).config
                    &&& forall|x: i32| #[trigger] final(self).has_user(x)
                        <==> old(self).has_user(x)
                    &&& forall|x: i32| old(self).has_user(x)
                        ==> #[trigger] final(self).user_of(x) == old(self).user_of(x)
                    &&& forall|x: i32| #[trigger] final(self).has_request(x)
                        <==> old(self).has_request(x)
                    &&& forall|x: i32| old(self).has_request(x)
                        ==> #[trigger] final(self).request_of(x) == old(self).request_of(x)
                },
                Err(e) => {
                    &&& *final(self) == *old(self)
                    &&& if !old(self).has_user(user_id) {
                        e == LedgerError::NotFound
                    } else {
                        e == LedgerError::Internal && old(self).next_account_id == i32::MAX
                    }
                },
            },
    {
        if self.find_user_index(user_id).is_none() {
            return Err(LedgerError::NotFound);
        }
        if self.next_account_id == i32::MAX {
            return Err(LedgerError::Internal);
        }
        let account = Account { id: self.next_account_id, user_id, created_at: now };
        let ghost pre = *self;
        proof {
            if pre.has_account(account.id) {
                let i = choose|i: int|
                    0 <= i < pre.store.accounts@.len()
                        && #[trigger] pre.store.accounts@[i].account.id == account.id;
                assert(pre.store.accounts@[i].account.id < pre.next_account_id);
            }
        }
        self.store.accounts.push(AccountHistory { account, txns: Vec::new() });
        self.next_account_id = self.next_account_id + 1;
        proof {
            let post = *self;
            let n = pre.store.accounts@.len() as int;
            assert forall|i: int, j: int|
                0 <= i < j < post.store.accounts@.len() implies
                #[trigger] post.store.accounts@[i].account.id
                != #[trigger] post.store.accounts@[j].account.id by {
                if j < n {
                    assert(pre.store.accounts@[i].account.id
                        != pre.store.accounts@[j].account.id);
                } else {
                    assert(post.store.accounts@[i] == pre.store.accounts@[i]);
                }
            }
            assert forall|i: int| 0 <= i < post.store.accounts@.len() implies
                (#[trigger] post.store.accounts@[i]).chain_ok(post.store.next_txn_id as int) by {
                if i < n {
                    assert(post.store.accounts@[i] == pre.store.accounts@[i]);
                } else {
                    assert(post.store.accounts@[i].txns@.len() == 0);
                }
            }
            assert(post.store.wf());
            assert forall|k: int| 0 <= k < post.requests@.len() implies
                #[trigger] post.request_ok(k) by {
                assert(pre.request_ok(k));
            }
            assert(post.wf());
            post.store.lemma_history_at(n);
            assert(post.txns_of(account.id) =~= Seq::<Transaction>::empty());
            assert forall|x: i32| x != account.id implies (#[trigger] post.has_account(x)
                <==> pre.has_account(x)) by {
                Bank::lemma_other_account(pre, post, account.id, x, n);
            }
            assert forall|x: i32| x != account.id implies #[trigger] post.txns_of(x)
                == pre.txns_of(x) by {
                Bank::lemma_other_account(pre, post, account.id, x, n);
            }
            assert forall|x: i32| x != account.id && pre.has_account(x) implies
                #[trigger] post.account_of(x) == pre.account_of(x) by {
                Bank::lemma_other_account(pre, post, account.id, x, n);
            }
            Bank::lemma_users_frame(pre, post);
            Bank::lemma_requests_frame(pre, post);
        }
        Ok(account)
    }

    /// The balance of an account: the latest snapshot, or zero.
    pub fn get_balance(&self, account_id: i32) -> (b: Cents)
        requires
            self.wf(),
        ensures
            b.0 == self.spec_balance(account_id),
    {
        self.store.get_balance(account_id)
    }

    /// The latest committed transaction of an account, if any.
    pub fn latest_transaction(&self, account_id: i32) -> (r: Option<Transaction>)
        requires
            self.wf(),
        ensures
            r == self.spec_latest(account_id),
    {
        self.store.latest_transaction(account_id)
    }

    /// A copy of an account's committed transactions, oldest first.
    pub fn transactions(&self, account_id: i32) -> (v: Vec<Transaction>)
        requires
            self.wf(),
        ensures
            v@ == self.txns_of(account_id),
    {
        self.store.transactions(account_id)
    }

    // ------------------------------------------------------------------
    // Interest accrual.

    /// The start of the accrual window: the latest transaction's timestamp,
    /// or the account's creation time while the history is empty.
    pub open spec fn accrual_since(self, id: i32) -> int {
        match self.spec_latest(id) {
            Some(t) => t.created_at as int,
            None => self.account_of(id).created_at as int,
        }
    }

    /// Interest owed to the account at `as_of`.
    pub open spec fn accrual_owed(self, id: i32, as_of: int) -> int {
        interest_amount(
            self.spec_balance(id),
            as_of - self.accrual_since(id),
            self.config.daily_rate_bps as int,
        )
    }

    /// The interest transaction a successful accrual posts.
    pub open spec fn accrual_txn(self, id: i32, as_of: int) -> Transaction {
        Transaction {
            id: self.store.next_txn_id,
            account_id: id,
            kind: TransactionKind::Interest,
            amount: Cents(self.accrual_owed(id, as_of) as i64),
            balance: Cents((self.spec_balance(id) + self.accrual_owed(id, as_of)) as i64),
            created_at: as_of as i64,
        }
    }

    /// The first reason an accrual must fail, or `None` when it is owed
    /// success (posting a transaction or finding none to post).
    pub open spec fn accrue_check(self, id: i32, as_of: int) -> Option<LedgerError> {
        let b = self.spec_balance(id);
        let owed = self.accrual_owed(id, as_of);
        if !self.has_account(id) {
            Some(LedgerError::NotFound)
        } else if interest_overflows(
            b,
            as_of - self.accrual_since(id),
            self.config.daily_rate_bps as int,
        ) {
            Some(LedgerError::Internal)
        } else if owed > 0 && (self.store.next_txn_id == i32::MAX || b + owed > i64::MAX) {
            Some(LedgerError::Internal)
        } else {
            None
        }
    }

    /// Post the interest owed to an account at `as_of`, if any: computes
    /// the window since the latest transaction and appends one `Interest`
    /// transaction when the owed amount is strictly positive. Calling it
    /// again at the same instant finds an empty window and posts nothing.
    pub fn accrue(&mut self, account_id: i32, as_of: i64) -> (r: Result<
        Option<Transaction>,
        LedgerError,
    >)
        requires
            old(self).wf(),
        ensures
            final(self).wf(),
            match r {
                Ok(posted) => {
                    &&& old(self).accrue_check(account_id, as_of as int) is None
                    &&& match posted {
                        Some(t) => {
                            &&& old(self).accrual_owed(account_id, as_of as int) > 0
                            &&& t == old(self).accrual_txn(account_id, as_of as int)
                            &&& final(self).txns_of(account_id)
                                == old(self).txns_of(account_id).push(t)
                            &&& final(self).store.same_accounts_except(
                                old(self).store,
                                account_id,
                            )
                            &&& final(self).store.next_txn_id
                                == old(self).store.next_txn_id + 1
                            &&& final(self).directory_unchanged(*old(self))
                            &&& forall|x: i32| (#[trigger] final(self).has_account(x)
                                <==> old(self).has_account(x))
                            &&& forall|x: i32| old(self).has_account(x)
                                ==> #[trigger] final(self).account_of(x)
                                    == old(self).account_of(x)
                            &&& forall|x: i32| x != account_id
                                ==> #[trigger] final(self).txns_of(x) == old(self).txns_of(x)
                        },
                        None => {
                            &&& old(self).accrual_owed(account_id, as_of as int) == 0
                            &&& *final(self) == *old(self)
                        },
                    }
                },
                Err(e) => {
                    &&& *final(self) == *old(self)
                    &&& old(self).accrue_check(account_id, as_of as int) == Some(e)
                },
            },
    {
        let account = match self.store.find_account_record(account_id) {
            Some(a) => a,
            None => {
                return Err(LedgerError::NotFound);
            },
        };
        let latest = self.store.latest_transaction(account_id);
        let since: i64 = match latest {
            Some(t) => t.created_at,
            None => account.created_at,
        };
        let balance = self.store.get_balance(account_id);
        proof {
            self.store.lemma_balance_nonneg(account_id);
        }
        let owed = match compute_interest(balance.0, since, as_of, self.config.daily_rate_bps) {
            Ok(v) => v,
            Err(e) => {
                return Err(e);
            },
        };
        if owed <= 0 {
            return Ok(None);
        }
        match self.store.append(account_id, TransactionKind::Interest, Cents(owed), balance, as_of) {
            Ok(t) => {
                proof {
                    Bank::lemma_wf_after_store_change(*old(self), *self);
                    Bank::lemma_users_frame(*old(self), *self);
                    Bank::lemma_requests_frame(*old(self), *self);
                    Bank::lemma_account_frame(*old(self), *self, account_id);
                }
                Ok(Some(t))
            },
            Err(e) => {
                proof {
                    assert(e == LedgerError::Internal);
                }
                Err(e)
            },
        }
    }

    // ------------------------------------------------------------------
    // The deposit and withdrawal use cases.

    /// The first reason a deposit must fail, or `None` when it is owed
    /// success.
    pub open spec fn deposit_check(
        self,
        actor: User,
        account_id: i32,
        cents: int,
        as_of: int,
    ) -> Option<LedgerError> {
        let b = self.spec_balance(account_id);
        let owed = self.accrual_owed(account_id, as_of);
        if cents <= 0 {
            Some(LedgerError::InvalidAmount)
        } else if !self.has_account(account_id) {
            Some(LedgerError::NotFound)
        } else if !self.has_user(self.account_of(account_id).user_id) {
            Some(LedgerError::NotFound)
        } else if !spec_can_access(actor, self.owner_of(account_id), self.account_of(account_id)) {
            Some(LedgerError::Unauthorized)
        } else if interest_overflows(
            b,
            as_of - self.accrual_since(account_id),
            self.config.daily_rate_bps as int,
        ) {
            Some(LedgerError::Internal)
        } else if b + owed > i64::MAX {
            Some(LedgerError::Internal)
        } else if b + owed + cents > i64::MAX {
            Some(LedgerError::Internal)
        } else if self.store.next_txn_id == i32::MAX
            || (owed > 0 && self.store.next_txn_id == i32::MAX - 1) {
            Some(LedgerError::Internal)
        } else {
            None
        }
    }

    /// The first reason a withdrawal must fail, or `None` when it is owed
    /// success.
    pub open spec fn withdraw_check(
        self,
        actor: User,
        account_id: i32,
        cents: int,
        as_of: int,
    ) -> Option<LedgerError> {
        let b = self.spec_balance(account_id);
        let owed = self.accrual_owed(account_id, as_of);
        if cents <= 0 {
            Some(LedgerError::InvalidAmount)
        } else if !self.has_account(account_id) {
            Some(LedgerError::NotFound)
        } else if !self.has_user(self.account_of(account_id).user_id) {
            Some(LedgerError::NotFound)
        } else if !spec_can_access(actor, self.owner_of(account_id), self.account_of(account_id)) {
            Some(LedgerError::Unauthorized)
        } else if interest_overflows(
            b,
            as_of - self.accrual_since(account_id),
            self.config.daily_rate_bps as int,
        ) {
            Some(LedgerError::Internal)
        } else if b + owed > i64::MAX {
            Some(LedgerError::Internal)
        } else if cents > b + owed {
            Some(LedgerError::InsufficientFunds)
        } else if self.store.next_txn_id == i32::MAX
            || (owed > 0 && self.store.next_txn_id == i32::MAX - 1) {
            Some(LedgerError::Internal)
        } else {
            None
        }
    }

    /// The transaction a successful deposit commits: the prior balance,
    /// plus the interest accrued in the same unit, plus the deposit.
    pub open spec fn deposit_txn(self, account_id: i32, cents: int, as_of: int) -> Transaction {
        let owed = self.accrual_owed(account_id, as_of);
        Transaction {
            id: (self.store.next_txn_id + (if owed > 0 { 1int } else { 0int })) as i32,
            account_id,
            kind: TransactionKind::Deposit,
            amount: Cents(cents as i64),
            balance: Cents((self.spec_balance(account_id) + owed + cents) as i64),
            created_at: as_of as i64,
        }
    }

    /// The transaction a successful withdrawal commits.
    pub open spec fn withdraw_txn(self, account_id: i32, cents: int, as_of: int) -> Transaction {
        let owed = self.accrual_owed(account_id, as_of);
        Transaction {
            id: (self.store.next_txn_id + (if owed > 0 { 1int } else { 0int })) as i32,
            account_id,
            kind: TransactionKind::Withdrawal,
            amount: Cents(cents as i64),
            balance: Cents((self.spec_balance(account_id) + owed - cents) as i64),
            created_at: as_of as i64,
        }
    }

    /// The histories a successful unit leaves behind on the target account:
    /// the old history, the interest entry when one was owed, then `t`.
    pub open spec fn unit_txns(self, account_id: i32, as_of: int, t: Transaction) -> Seq<
        Transaction,
    > {
        if self.accrual_owed(account_id, as_of) > 0 {
            self.txns_of(account_id).push(self.accrual_txn(account_id, as_of)).push(t)
        } else {
            self.txns_of(account_id).push(t)
        }
    }

    /// Deposit into an account, as one atomic unit: authorization was
    /// granted, interest owed is posted first, the new balance is the prior
    /// balance plus the accrued interest plus the amount, and one `Deposit`
    /// transaction is committed on top. On any error nothing changed.
    #[verifier::rlimit(100)]
    pub fn deposit_cents(&mut self, actor: &User, account_id: i32, cents: i64, now: i64) -> (r: Result<
        Transaction,
        LedgerError,
    >)
        requires
            old(self).wf(),
        ensures
            final(self).wf(),
            match r {
                Ok(t) => {
                    &&& old(self).deposit_check(
                        *actor,
                        account_id,
                        cents as int,
                        now as int,
                    ) is None
                    &&& t == old(self).deposit_txn(
                        account_id,
                        cents as int,
                        now as int,
                    )
                    &&& final(self).txns_of(account_id)
                        == old(self).unit_txns(account_id, now as int, t)
                    &&& final(self).spec_balance(account_id)
                        == old(self).spec_balance(account_id)
                            + old(self).accrual_owed(account_id, now as int)
                            + cents
                    &&& final(self).store.same_accounts_except(
                        old(self).store,
                        account_id,
                    )
                    &&& final(self).directory_unchanged(*old(self))
                    &&& forall|x: i32| (#[trigger] final(self).has_account(x)
                        <==> old(self).has_account(x))
                    &&& forall|x: i32| old(self).has_account(x)
                        ==> #[trigger] final(self).account_of(x) == old(self).account_of(x)
                    &&& forall|x: i32| x != account_id
                        ==> #[trigger] final(self).txns_of(x) == old(self).txns_of(x)
                },
                Err(e) => {
                    &&& *final(self) == *old(self)
                    &&& old(self).deposit_check(
                        *actor,
                        account_id,
                        cents as int,
                        now as int,
                    ) == Some(e)
                },
            },
    {
        if cents <= 0 {
            return Err(LedgerError::InvalidAmount);
        }
        let account = match self.store.find_account_record(account_id) {
            Some(a) => a,
            None => {
                return Err(LedgerError::NotFound);
            },
        };
        let owner = match self.find_user(account.user_id) {
            Some(u) => u,
            None => {
                return Err(LedgerError::NotFound);
            },
        };
        if !can_access(actor, &owner, &account) {
            return Err(LedgerError::Unauthorized);
        }
        let latest = self.store.latest_transaction(account_id);
        let since: i64 = match latest {
            Some(t) => t.created_at,
            None => account.created_at,
        };
        let balance = self.store.get_balance(account_id);
        proof {
            self.store.lemma_balance_nonneg(account_id);
        }
        let owed = match compute_interest(balance.0, since, now, self.config.daily_rate_bps) {
            Ok(v) => v,
            Err(e) => {
                return Err(e);
            },
        };
        let after_interest = match balance.checked_add(Cents(owed)) {
            Some(v) => v,
            None => {
                return Err(LedgerError::Internal);
            },
        };
        if after_interest.checked_add(Cents(cents)).is_none() {
            return Err(LedgerError::Internal);
        }
        if owed > 0 {
            if self.store.next_txn_id >= i32::MAX - 1 {
                return Err(LedgerError::Internal);
            }
        } else {
            if self.store.next_txn_id == i32::MAX {
                return Err(LedgerError::Internal);
            }
        }
        let ghost pre = *self;
        let ghost mut mid = *self;
        if owed > 0 {
            match self.store.append(
                account_id,
                TransactionKind::Interest,
                Cents(owed),
                balance,
                now,
            ) {
                Ok(it) => {
                    proof {
                        mid = *self;
                        assert(it == pre.accrual_txn(account_id, now as int));
                        assert(self.txns_of(account_id).last() == it);
                        assert(self.spec_balance(account_id) == after_interest.0);
                    }
                },
                Err(e) => {
                    proof {
                        assert(false);
                    }
                    return Err(e);
                },
            }
        }
        let t = match self.store.append(
            account_id,
            TransactionKind::Deposit,
            Cents(cents),
            after_interest,
            now,
        ) {
            Ok(t) => t,
            Err(e) => {
                proof {
                    assert(false);
                }
                return Err(e);
            },
        };
        proof {
            if pre.accrual_owed(account_id, now as int) > 0 {
                LedgerStore::lemma_same_accounts_trans(
                    pre.store,
                    mid.store,
                    self.store,
                    account_id,
                );
            }
            Bank::lemma_wf_after_store_change(pre, *self);
            Bank::lemma_users_frame(pre, *self);
            Bank::lemma_requests_frame(pre, *self);
            Bank::lemma_account_frame(pre, *self, account_id);
            assert(self.txns_of(account_id)
                =~= pre.unit_txns(account_id, now as int, t));
        }
        Ok(t)
    }

    /// Withdraw from an account, as one atomic unit: authorization was
    /// granted, interest owed is posted first, and the withdrawal is
    /// rejected with `InsufficientFunds` — with nothing applied, not even
    /// the interest — when the amount exceeds the balance after accrual.
    #[verifier::rlimit(100)]
    pub fn withdraw_cents(&mut self, actor: &User, account_id: i32, cents: i64, now: i64) -> (r: Result<
        Transaction,
        LedgerError,
    >)
        requires
            old(self).wf(),
        ensures
            final(self).wf(),
            match r {
                Ok(t) => {
                    &&& old(self).withdraw_check(
                        *actor,
                        account_id,
                        cents as int,
                        now as int,
                    ) is None
                    &&& t == old(self).withdraw_txn(
                        account_id,
                        cents as int,
                        now as int,
                    )
                    &&& final(self).txns_of(account_id)
                        == old(self).unit_txns(account_id, now as int, t)
                    &&& final(self).spec_balance(account_id)
                        == old(self).spec_balance(account_id)
                            + old(self).accrual_owed(account_id, now as int)
                            - cents
                    &&& final(self).store.same_accounts_except(
                        old(self).store,
                        account_id,
                    )
                    &&& final(self).directory_unchanged(*old(self))
                    &&& forall|x: i32| (#[trigger] final(self).has_account(x)
                        <==> old(self).has_account(x))
                    &&& forall|x: i32| old(self).has_account(x)
                        ==> #[trigger] final(self).account_of(x) == old(self).account_of(x)
                    &&& forall|x: i32| x != account_id
                        ==> #[trigger] final(self).txns_of(x) == old(self).txns_of(x)
                },
                Err(e) => {
                    &&& *final(self) == *old(self)
                    &&& old(self).withdraw_check(
                        *actor,
                        account_id,
                        cents as int,
                        now as int,
                    ) == Some(e)
                },
            },
    {
        if cents <= 0 {
            return Err(LedgerError::InvalidAmount);
        }
        let account = match self.store.find_account_record(account_id) {
            Some(a) => a,
            None => {
                return Err(LedgerError::NotFound);
            },
        };
        let owner = match self.find_user(account.user_id) {
            Some(u) => u,
            None => {
                return Err(LedgerError::NotFound);
            },
        };
        if !can_access(actor, &owner, &account) {
            return Err(LedgerError::Unauthorized);
        }
        let latest = self.store.latest_transaction(account_id);
        let since: i64 = match latest {
            Some(t) => t.created_at,
            None => account.created_at,
        };
        let balance = self.store.get_balance(account_id);
        proof {
            self.store.lemma_balance_nonneg(account_id);
        }
        let owed = match compute_interest(balance.0, since, now, self.config.daily_rate_bps) {
            Ok(v) => v,
            Err(e) => {
                return Err(e);
            },
        };
        let after_interest = match balance.checked_add(Cents(owed)) {
            Some(v) => v,
            None => {
                return Err(LedgerError::Internal);
            },
        };
        if cents > after_interest.0 {
            return Err(LedgerError::InsufficientFunds);
        }
        if owed > 0 {
            if self.store.next_txn_id >= i32::MAX - 1 {
                return Err(LedgerError::Internal);
            }
        } else {
            if self.store.next_txn_id == i32::MAX {
                return Err(LedgerError::Internal);
            }
        }
        let ghost pre = *self;
        let ghost mut mid = *self;
        if owed > 0 {
            match self.store.append(
                account_id,
                TransactionKind::Interest,
                Cents(owed),
                balance,
                now,
            ) {
                Ok(it) => {
                    proof {
                        mid = *self;
                        assert(it == pre.accrual_txn(account_id, now as int));
                        assert(self.txns_of(account_id).last() == it);
                        assert(self.spec_balance(account_id) == after_interest.0);
                    }
                },
                Err(e) => {
                    proof {
                        assert(false);
                    }
                    return Err(e);
                },
            }
        }
        let t = match self.store.append(
            account_id,
            TransactionKind::Withdrawal,
            Cents(cents),
            after_interest,
            now,
        ) {
            Ok(t) => t,
            Err(e) => {
                proof {
                    assert(false);
                }
                return Err(e);
            },
        };
        proof {
            if pre.accrual_owed(account_id, now as int) > 0 {
                LedgerStore::lemma_same_accounts_trans(
                    pre.store,
                    mid.store,
                    self.store,
                    account_id,
                );
            }
            Bank::lemma_wf_after_store_change(pre, *self);
            Bank::lemma_users_frame(pre, *self);
            Bank::lemma_requests_frame(pre, *self);
            Bank::lemma_account_frame(pre, *self, account_id);
            assert(self.txns_of(account_id)
                =~= pre.unit_txns(account_id, now as int, t));
        }
        Ok(t)
    }

    /// The deposit use case on its transport-shaped input.
    pub fn deposit(&mut self, actor: &User, input: DepositInput, now: i64) -> (r: Result<
        Transaction,
        LedgerError,
    >)
        requires
            old(self).wf(),
        ensures
            final(self).wf(),
            match r {
                Ok(t) => {
                    &&& old(self).deposit_check(
                        *actor,
                        input.account_id,
                        input.cents as int,
                        now as int,
                    ) is None
                    &&& t == old(self).deposit_txn(
                        input.account_id,
                        input.cents as int,
                        now as int,
                    )
                    &&& final(self).txns_of(input.account_id)
                        == old(self).unit_txns(input.account_id, now as int, t)
                    &&& final(self).spec_balance(input.account_id)
                        == old(self).spec_balance(input.account_id)
                            + old(self).accrual_owed(input.account_id, now as int)
                            + input.cents
                    &&& final(self).store.same_accounts_except(
                        old(self).store,
                        input.account_id,
                    )
                    &&& final(self).directory_unchanged(*old(self))
                    &&& forall|x: i32| (#[trigger] final(self).has_account(x)
                        <==> old(self).has_account(x))
                    &&& forall|x: i32| old(self).has_account(x)
                        ==> #[trigger] final(self).account_of(x) == old(self).account_of(x)
                    &&& forall|x: i32| x != input.account_id
                        ==> #[trigger] final(self).txns_of(x) == old(self).txns_of(x)
                },
                Err(e) => {
                    &&& *final(self) == *old(self)
                    &&& old(self).deposit_check(
                        *actor,
                        input.account_id,
                        input.cents as int,
                        now as int,
                    ) == Some(e)
                },
            },
    {
        self.deposit_cents(actor, input.account_id, input.cents as i64, now)
    }

    /// The withdrawal use case on its transport-shaped input.
    pub fn withdraw(&mut self, actor: &User, input: WithdrawalInput, now: i64) -> (r: Result<
        Transaction,
        LedgerError,
    >)
        requires
            old(self).wf(),
        ensures
            final(self).wf(),
            match r {
                Ok(t) => {
                    &&& old(self).withdraw_check(
                        *actor,
                        input.account_id,
                        input.cents as int,
                        now as int,
                    ) is None
                    &&& t == old(self).withdraw_txn(
                        input.account_id,
                        input.cents as int,
                        now as int,
                    )
                    &&& final(self).txns_of(input.account_id)
                        == old(self).unit_txns(input.account_id, now as int, t)
                    &&& final(self).spec_balance(input.account_id)
                        == old(self).spec_balance(input.account_id)
                            + old(self).accrual_owed(input.account_id, now as int)
                            - input.cents
                    &&& final(self).store.same_accounts_except(
                        old(self).store,
                        input.account_id,
                    )
                    &&& final(self).directory_unchanged(*old(self))
                    &&& forall|x: i32| (#[trigger] final(self).has_account(x)
                        <==> old(self).has_account(x))
                    &&& forall|x: i32| old(self).has_account(x)
                        ==> #[trigger] final(self).account_of(x) == old(self).account_of(x)
                    &&& forall|x: i32| x != input.account_id
                        ==> #[trigger] final(self).txns_of(x) == old(self).txns_of(x)
                },
                Err(e) => {
                    &&& *final(self) == *old(self)
                    &&& old(self).withdraw_check(
                        *actor,
                        input.account_id,
                        input.cents as int,
                        now as int,
                    ) == Some(e)
                },
            },
    {
        self.withdraw_cents(actor, input.account_id, input.cents as i64, now)
    }
}

} // verus!

//! The approval workflow: a transaction request is created `Pending` and
//! moves exactly once to `Approved` or `Rejected`. Approval runs the
//! underlying deposit or withdrawal use case and records `Approved` only
//! when that unit committed; on any failure the request stays `Pending`
//! and the ledger is untouched. Rejection never touches the ledger.

use vstd::prelude::*;
use crate::auth::{can_access, spec_can_access};
use crate::bank::Bank;
use crate::model::{
    LedgerError, RequestState, Transaction, TransactionKind, TransactionRequest, User,
};
use crate::money::Cents;

verus! {

impl Bank {
    /// Whether a request with this identifier exists.
    pub open spec fn has_request(self, id: i32) -> bool {
        exists|k: int| 0 <= k < self.requests@.len() && #[trigger] self.requests@[k].id == id
    }

    /// The request behind an identifier (meaningful under `has_request`).
    pub open spec fn request_of(self, id: i32) -> TransactionRequest {
        self.requests@[choose|k: int|
            0 <= k < self.requests@.len() && #[trigger] self.requests@[k].id == id]
    }

    /// In a well-formed engine the position of a request is the one
    /// `choose` picks.
    pub proof fn lemma_request_at(self, k: int)
        requires
            self.wf(),
            0 <= k < self.requests@.len(),
        ensures
            self.has_request(self.requests@[k].id),
            self.request_of(self.requests@[k].id) == self.requests@[k],
    {
        let id = self.requests@[k].id;
        assert(self.has_request(id));
        let j = choose|j: int|
            0 <= j < self.requests@.len() && #[trigger] self.requests@[j].id == id;
        if k < j {
            assert(self.requests@[k].id != self.requests@[j].id);
        } else if j < k {
            assert(self.requests@[j].id != self.requests@[k].id);
        }
    }

    /// Index of the request with this identifier, if any.
    fn find_request_index(&self, id: i32) -> (r: Option<usize>)
        ensures
            match r {
                Some(k) => k < self.requests@.len() && self.requests@[k as int].id == id,
                None => !self.has_request(id),
            },
    {
        let mut k: usize = 0;
        while k < self.requests.len()
            invariant
                k <= self.requests@.len(),
                forall|j: int| 0 <= j < k ==> #[trigger] self.requests@[j].id != id,
            decreases self.requests@.len() - k,
        {
            if self.requests[k].id == id {
                return Some(k);
            }
            k += 1;
        }
        None
    }

    /// Two engines with the same request vector agree on every request
    /// lookup.
    pub proof fn lemma_requests_frame(pre: Bank, post: Bank)
        requires
            pre.wf(),
            post.requests@ == pre.requests@,
        ensures
            forall|x: i32| #[trigger] post.has_request(x) <==> pre.has_request(x),
            forall|x: i32| pre.has_request(x) ==> #[trigger] post.request_of(x)
                == pre.request_of(x),
    {
        assert forall|x: i32| #[trigger] post.has_request(x) <==> pre.has_request(x) by {
            if post.has_request(x) {
                let k = choose|k: int|
                    0 <= k < post.requests@.len() && #[trigger] post.requests@[k].id == x;
                assert(pre.requests@[k].id == x);
            }
            if pre.has_request(x) {
                let k = choose|k: int|
                    0 <= k < pre.requests@.len() && #[trigger] pre.requests@[k].id == x;
                assert(post.requests@[k].id == x);
            }
        }
        assert forall|x: i32| pre.has_request(x) implies #[trigger] post.request_of(x)
            == pre.request_of(x) by {
            let k = choose|k: int|
                0 <= k < pre.requests@.len() && #[trigger] pre.requests@[k].id == x;
            pre.lemma_request_at(k);
            let j = choose|j: int|
                0 <= j < post.requests@.len() && #[trigger] post.requests@[j].id == x;
            assert(pre.requests@[j].id == x);
            if k < j {
                assert(pre.requests@[k].id != pre.requests@[j].id);
            } else if j < k {
                assert(pre.requests@[j].id != pre.requests@[k].id);
            }
        }
    }

    /// The request behind an identifier, if any.
    pub fn find_request(&self, id: i32) -> (r: Option<TransactionRequest>)
        requires
            self.wf(),
        ensures
            match r {
                Some(q) => self.has_request(id) && q == self.request_of(id),
                None => !self.has_request(id),
            },
    {
        match self.find_request_index(id) {
            Some(k) => {
                proof {
                    self.lemma_request_at(k as int);
                }
                Some(self.requests[k])
            },
            None => None,
        }
    }

    /// The first reason creating a request must fail: the amount must be
    /// positive, only deposits and withdrawals can be proposed, the account
    /// must exist, and an identifier must be free.
    pub open spec fn create_request_check(
        self,
        account_id: i32,
        kind: TransactionKind,
        amount: Cents,
    ) -> Option<LedgerError> {
        if amount.0 <= 0 {
            Some(LedgerError::InvalidAmount)
        } else if kind == TransactionKind::Interest {
            Some(LedgerError::InvalidState)
        } else if !self.has_account(account_id) {
            Some(LedgerError::NotFound)
        } else if self.next_request_id == i32::MAX {
            Some(LedgerError::Internal)
        } else {
            None
        }
    }

    /// Raise a request: it is stored `Pending` and touches no ledger state.
    pub fn create_transaction_request(
        &mut self,
        account_id: i32,
        kind: TransactionKind,
        amount: Cents,
        now: i64,
    ) -> (r: Result<TransactionRequest, LedgerError>)
        requires
            old(self).wf(),
        ensures
            final(self).wf(),
            match r {
                Ok(q) => {
                    &&& old(self).create_request_check(account_id, kind, amount) is None
                    &&& q == (TransactionRequest {
                        id: old(self).next_request_id,
                        account_id,
                        kind,
                        amount,
                        state: RequestState::Pending,
                        created_at: now,
                    })
                    &&& !old(self).has_request(q.id)
                    &&& final(self).has_request(q.id)
                    &&& final(self).request_of(q.id) == q
                    &&& final(self).requests@ == old(self).requests@.push(q)
                    &&& final(self).next_request_id == old(self).next_request_id + 1
                    &&& forall|x: i32| x != q.id
                        ==> (#[trigger] final(self).has_request(x) <==> old(self).has_request(x))
                    &&& forall|x: i32| x != q.id && old(self).has_request(x)
                        ==> #[trigger] final(self).request_of(x) == old(self).request_of(x)
                    &&& final(self).store == old(self).store
                    &&& final(self).users@ == old(self).users@
                    &&& final(self).next_account_id == old(self).next_account_id
                    &&& final(self).config == old(self).config
                    &&& forall|x: i32| #[trigger] final(self).has_user(x)
                        <==> old(self).has_user(x)
                    &&& forall|x: i32| old(self).has_user(x)
                        ==> #[trigger] final(self).user_of(x) == old(self).user_of(x)
                },
                Err(e) => {
                    &&& *final(self) == *old(self)
                    &&& old(self).create_request_check(account_id, kind, amount) == Some(e)
                },
            },
    {
        if amount.0 <= 0 {
            return Err(LedgerError::InvalidAmount);
        }
        match kind {
            TransactionKind::Interest => {
                return Err(LedgerError::InvalidState);
            },
            _ => {},
        }
        if self.store.find_account_record(account_id).is_none() {
            return Err(LedgerError::NotFound);
        }
        if self.next_request_id == i32::MAX {
            return Err(LedgerError::Internal);
        }
        let q = TransactionRequest {
            id: self.next_request_id,
            account_id,
            kind,
            amount,
            state: RequestState::Pending,
            created_at: now,
        };
        let ghost pre = *self;
        proof {
            if pre.has_request(q.id) {
                let k = choose|k: int|
                    0 <= k < pre.requests@.len() && #[trigger] pre.requests@[k].id == q.id;
                assert(pre.request_ok(k));
            }
        }
        self.requests.push(q);
        self.next_request_id = self.next_request_id + 1;
        proof {
            let post = *self;
            let n = pre.requests@.len() as int;
            assert forall|k: int| 0 <= k < post.requests@.len() implies
                #[trigger] post.request_ok(k) by {
                if k < n {
                    assert(pre.request_ok(k));
                    assert(post.requests@[k] == pre.requests@[k]);
                }
            }
            assert forall|k1: int, k2: int|
                0 <= k1 < k2 < post.requests@.len() implies #[trigger] post.requests@[k1].id
                != #[trigger] post.requests@[k2].id by {
                if k2 < n {
                    assert(pre.requests@[k1].id != pre.requests@[k2].id);
                } else {
                    assert(post.requests@[k1] == pre.requests@[k1]);
                    assert(pre.request_ok(k1));
                }
            }
            assert(post.wf());
            post.lemma_request_at(n);
            assert forall|x: i32| x != q.id implies (#[trigger] post.has_request(x)
                <==> pre.has_request(x)) by {
                if post.has_request(x) {
                    let k = choose|k: int|
                        0 <= k < post.requests@.len() && #[trigger] post.requests@[k].id == x;
                    assert(pre.requests@[k].id == x);
                }
                if pre.has_request(x) {
                    let k = choose|k: int|
                        0 <= k < pre.requests@.len() && #[trigger] pre.requests@[k].id == x;
                    assert(post.requests@[k].id == x);
                }
            }
            assert forall|x: i32| x != q.id && pre.has_request(x) implies
                #[trigger] post.request_of(x) == pre.request_of(x) by {
                let k = choose|k: int|
                    0 <= k < pre.requests@.len() && #[trigger] pre.requests@[k].id == x;
                pre.lemma_request_at(k);
                post.lemma_request_at(k);
            }
            Bank::lemma_users_frame(pre, post);
        }
        Ok(q)
    }

    /// The first reason an approval must fail, or `None` when it is owed
    /// success: the request must exist and be `Pending`, and the underlying
    /// use case must be owed success for the approver.
    pub open spec fn approve_check(self, request_id: i32, approver: User, as_of: int) -> Option<
        LedgerError,
    > {
        if !self.has_request(request_id) {
            Some(LedgerError::NotFound)
        } else {
            let q = self.request_of(request_id);
            if q.state != RequestState::Pending {
                Some(LedgerError::InvalidState)
            } else if q.kind == TransactionKind::Deposit {
                self.deposit_check(approver, q.account_id, q.amount.0 as int, as_of)
            } else {
                self.withdraw_check(approver, q.account_id, q.amount.0 as int, as_of)
            }
        }
    }

    /// The first reason a rejection must fail: the request must exist and
    /// be `Pending`, and the approver must be authorized for the target
    /// account.
    pub open spec fn reject_check(self, request_id: i32, approver: User) -> Option<LedgerError> {
        if !self.has_request(request_id) {
            Some(LedgerError::NotFound)
        } else {
            let q = self.request_of(request_id);
            if q.state != RequestState::Pending {
                Some(LedgerError::InvalidState)
            } else if !self.has_account(q.account_id) {
                Some(LedgerError::NotFound)
            } else if !self.has_user(self.account_of(q.account_id).user_id) {
                Some(LedgerError::NotFound)
            } else if !spec_can_access(
                approver,
                self.owner_of(q.account_id),
                self.account_of(q.account_id),
            ) {
                Some(LedgerError::Unauthorized)
            } else {
                None
            }
        }
    }

    /// Approve a pending request: run the proposed deposit or withdrawal
    /// as its own atomic unit and record `Approved` only when that unit
    /// committed. On any failure — including `InsufficientFunds` from the
    /// underlying withdrawal — the request stays `Pending` and the ledger
    /// is exactly as it was.
    #[verifier::rlimit(100)]
    pub fn approve_request(&mut self, request_id: i32, approver: &User, now: i64) -> (r: Result<
        Transaction,
        LedgerError,
    >)
        requires
            old(self).wf(),
        ensures
            final(self).wf(),
            match r {
                Ok(t) => {
                    let q = old(self).request_of(request_id);
                    &&& old(self).approve_check(request_id, *approver, now as int) is None
                    &&& t == (if q.kind == TransactionKind::Deposit {
                        old(self).deposit_txn(q.account_id, q.amount.0 as int, now as int)
                    } else {
                        old(self).withdraw_txn(q.account_id, q.amount.0 as int, now as int)
                    })
                    &&& final(self).txns_of(q.account_id)
                        == old(self).unit_txns(q.account_id, now as int, t)
                    &&& final(self).store.same_accounts_except(old(self).store, q.account_id)
                    &&& final(self).has_request(request_id)
                    &&& final(self).request_of(request_id)
                        == (TransactionRequest { state: RequestState::Approved, ..q })
                    &&& final(self).requests@.len() == old(self).requests@.len()
                    &&& forall|x: i32| x != request_id
                        ==> (#[trigger] final(self).has_request(x) <==> old(self).has_request(x))
                    &&& forall|x: i32| x != request_id && old(self).has_request(x)
                        ==> #[trigger] final(self).request_of(x) == old(self).request_of(x)
                    &&& final(self).users@ == old(self).users@
                    &&& final(self).next_account_id == old(self).next_account_id
                    &&& final(self).next_request_id == old(self).next_request_id
                    &&& final(self).config == old(self).config
                    &&& forall|x: i32| #[trigger] final(self).has_user(x)
                        <==> old(self).has_user(x)
                    &&& forall|x: i32| old(self).has_user(x)
                        ==> #[trigger] final(self).user_of(x) == old(self).user_of(x)
                },
                Err(e) => {
                    &&& *final(self) == *old(self)
                    &&& old(self).approve_check(request_id, *approver, now as int) == Some(e)
                },
            },
    {
        let k = match self.find_request_index(request_id) {
            Some(k) => k,
            None => {
                return Err(LedgerError::NotFound);
            },
        };
        proof {
            self.lemma_request_at(k as int);
            assert(self.request_ok(k as int));
        }
        let q = self.requests[k];
        match q.state {
            RequestState::Pending => {},
            _ => {
                return Err(LedgerError::InvalidState);
            },
        }
        let ghost pre = *self;
        let outcome = match q.kind {
            TransactionKind::Deposit => self.deposit_cents(approver, q.account_id, q.amount.0, now),
            TransactionKind::Withdrawal => self.withdraw_cents(
                approver,
                q.account_id,
                q.amount.0,
                now,
            ),
            TransactionKind::Interest => {
                proof {
                    assert(false);
                }
                return Err(LedgerError::InvalidState);
            },
        };
        let t = match outcome {
            Ok(t) => t,
            Err(e) => {
                return Err(e);
            },
        };
        let ghost mid = *self;
        let slot = &mut self.requests[k];
        slot.state = RequestState::Approved;
        proof {
            let post = *self;
            assert(post.requests@ =~= mid.requests@.update(
                k as int,
                TransactionRequest { state: RequestState::Approved, ..q },
            ));
            Bank::lemma_request_update(mid, post, k as int);
            assert(post.wf());
            Bank::lemma_users_frame(pre, post);
            assert(post.request_of(request_id)
                == (TransactionRequest { state: RequestState::Approved, ..q }));
        }
        Ok(t)
    }

    /// Reject a pending request: it moves to `Rejected` and the ledger is
    /// untouched.
    #[verifier::rlimit(100)]
    pub fn reject_request(&mut self, request_id: i32, approver: &User) -> (r: Result<
        TransactionRequest,
        LedgerError,
    >)
        requires
            old(self).wf(),
        ensures
            final(self).wf(),
            match r {
                Ok(q2) => {
                    let q = old(self).request_of(request_id);
                    &&& old(self).reject_check(request_id, *approver) is None
                    &&& q2 == (TransactionRequest { state: RequestState::Rejected, ..q })
                    &&& final(self).has_request(request_id)
                    &&& final(self).request_of(request_id) == q2
                    &&& final(self).requests@.len() == old(self).requests@.len()
                    &&& forall|x: i32| x != request_id
                        ==> (#[trigger] final(self).has_request(x) <==> old(self).has_request(x))
                    &&& forall|x: i32| x != request_id && old(self).has_request(x)
                        ==> #[trigger] final(self).request_of(x) == old(self).request_of(x)
                    &&& final(self).store == old(self).store
                    &&& final(self).users@ == old(self).users@
                    &&& final(self).next_account_id == old(self).next_account_id
                    &&& final(self).next_request_id == old(self).next_request_id
                    &&& final(self).config == old(self).config
                    &&& forall|x: i32| #[trigger] final(self).has_user(x)
                        <==> old(self).has_user(x)
                    &&& forall|x: i32| old(self).has_user(x)
                        ==> #[trigger] final(self).user_of(x) == old(self).user_of(x)
                },
                Err(e) => {
                    &&& *final(self) == *old(self)
                    &&& old(self).reject_check(request_id, *approver) == Some(e)
                },
            },
    {
        let k = match self.find_request_index(request_id) {
            Some(k) => k,
            None => {
                return Err(LedgerError::NotFound);
            },
        };
        proof {
            self.lemma_request_at(k as int);
        }
        let q = self.requests[k];
        match q.state {
            RequestState::Pending => {},
            _ => {
                return Err(LedgerError::InvalidState);
            },
        }
        let account = match self.store.find_account_record(q.account_id) {
            Some(a) => a,
            None => {
                return Err(LedgerError::NotFound);
            },
        };
        let owner = match self.find_user(account.user_id) {
            Some(u) => u,
            None => {
                return Err(LedgerError::NotFound);
            },
        };
        if !can_access(approver, &owner, &account) {
            return Err(LedgerError::Unauthorized);
        }
        let ghost pre = *self;
        let slot = &mut self.requests[k];
        slot.state = RequestState::Rejected;
        proof {
            let post = *self;
            assert(post.requests@ =~= pre.requests@.update(
                k as int,
                TransactionRequest { state: RequestState::Rejected, ..q },
            ));
            Bank::lemma_request_update(pre, post, k as int);
            assert(post.wf());
            Bank::lemma_users_frame(pre, post);
            assert(post.request_of(request_id)
                == (TransactionRequest { state: RequestState::Rejected, ..q }));
        }
        Ok(TransactionRequest { state: RequestState::Rejected, ..q })
    }

    /// After the state of the request at position `k` was rewritten, the
    /// engine is still well formed and every other request is as it was.
    proof fn lemma_request_update(pre: Bank, post: Bank, k: int)
        requires
            pre.wf(),
            0 <= k < pre.requests@.len(),
            post.requests@.len() == pre.requests@.len(),
            forall|j: int|
                #![trigger post.requests@[j]]
                0 <= j < pre.requests@.len() && j != k ==> post.requests@[j] == pre.requests@[j],
            post.requests@[k].id == pre.requests@[k].id,
            post.requests@[k].amount == pre.requests@[k].amount,
            post.requests@[k].kind == pre.requests@[k].kind,
            post.store == pre.store,
            post.users@ == pre.users@,
            post.next_account_id == pre.next_account_id,
            post.next_request_id == pre.next_request_id,
        ensures
            post.wf(),
            post.has_request(pre.requests@[k].id),
            post.request_of(pre.requests@[k].id) == post.requests@[k],
            forall|x: i32| x != pre.requests@[k].id
                ==> (#[trigger] post.has_request(x) <==> pre.has_request(x)),
            forall|x: i32| x != pre.requests@[k].id && pre.has_request(x)
                ==> #[trigger] post.request_of(x) == pre.request_of(x),
    {
        let id = pre.requests@[k].id;
        assert forall|j: int| 0 <= j < post.requests@.len() implies
            #[trigger] post.request_ok(j) by {
            assert(pre.request_ok(j));
        }
        assert forall|j1: int, j2: int|
            0 <= j1 < j2 < post.requests@.len() implies #[trigger] post.requests@[j1].id
            != #[trigger] post.requests@[j2].id by {
            assert(pre.requests@[j1].id != pre.requests@[j2].id);
        }
        assert(post.wf());
        post.lemma_request_at(k);
        assert forall|x: i32| x != id implies (#[trigger] post.has_request(x)
            <==> pre.has_request(x)) by {
            if post.has_request(x) {
                let j = choose|j: int|
                    0 <= j < post.requests@.len() && #[trigger] post.requests@[j].id == x;
                assert(j != k);
                assert(pre.requests@[j].id == x);
            }
            if pre.has_request(x) {
                let j = choose|j: int|
                    0 <= j < pre.requests@.len() && #[trigger] pre.requests@[j].id == x;
                assert(j != k);
                assert(post.requests@[j].id == x);
            }
        }
        assert forall|x: i32| x != id && pre.has_request(x) implies
            #[trigger] post.request_of(x) == pre.request_of(x) by {
            let j = choose|j: int|
                0 <= j < pre.requests@.len() && #[trigger] pre.requests@[j].id == x;
            pre.lemma_request_at(j);
            post.lemma_request_at(j);
        }
    }
}

} // verus!

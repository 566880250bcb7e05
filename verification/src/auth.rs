//! The capability gate: whether an acting user may touch an account. The
//! decision reads role, tenant and ownership; it answers `false` on a valid
//! but unauthorized check and never fails itself — a missing account or
//! owner is the caller's condition to raise.

use vstd::prelude::*;
use crate::model::{Account, Role, User};

verus! {

/// An `Investor` may touch only accounts they own themselves. An `Admin`
/// may touch any account whose owner belongs to the admin's own tenant —
/// never one of another tenant.
pub open spec fn spec_can_access(actor: User, owner: User, account: Account) -> bool {
    match actor.role {
        Role::Investor => account.user_id == actor.id,
        Role::Admin => owner.client_id == actor.client_id,
    }
}

/// Decide access for `actor` on `account`, whose owning user is `owner`.
pub fn can_access(actor: &User, owner: &User, account: &Account) -> (r: bool)
    ensures
        r == spec_can_access(*actor, *owner, *account),
{
    match actor.role {
        Role::Investor => account.user_id == actor.id,
        Role::Admin => owner.client_id == actor.client_id,
    }
}

} // verus!

//! Where a request comes from, and the guard that every operation applies to
//! it.

use vstd::prelude::*;
use crate::error::DispatchError;
use crate::primitives::AccountId;

verus! {

/// The caller of a request, as the host has already established it.
#[derive(Clone, Copy, Debug, PartialEq, Eq, Structural)]
pub enum Origin {
    /// The request was signed by this account.
    Signed(AccountId),
    /// Nobody vouches for the request.
    Unsigned,
}

/// The account behind an origin; an unsigned origin has none.
pub open spec fn signer(origin: Origin) -> Result<AccountId, DispatchError> {
    match origin {
        Origin::Signed(who) => Ok(who),
        Origin::Unsigned => Err(DispatchError::BadOrigin),
    }
}

impl Origin {
    /// The origin of a request signed by `who`.
    pub fn signed(who: AccountId) -> (origin: Origin)
        ensures
            origin == Origin::Signed(who),
    {
        Origin::Signed(who)
    }

    /// The origin of a request that nobody signed.
    pub fn none() -> (origin: Origin)
        ensures
            origin == Origin::Unsigned,
    {
        Origin::Unsigned
    }
}

/// The account that signed the request, or `BadOrigin` where none did.
pub fn ensure_signed(origin: Origin) -> (who: Result<AccountId, DispatchError>)
    ensures
        who == signer(origin),
{
    match origin {
        Origin::Signed(who) => Ok(who),
        Origin::Unsigned => Err(DispatchError::BadOrigin),
    }
}

} // verus!

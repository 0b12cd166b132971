//! The dispatch layer's decision logic.
//!
//! The hosting environment resolves the caller identity and hands it in;
//! these functions apply the admin gate and then invoke exactly one ledger
//! or registry operation. Membership is consulted here, never inside the
//! ledger's own arithmetic: a caller without the capability gets
//! `PermissionDenied` and the stores are left untouched.

use vstd::prelude::*;

use crate::address::Address;
use crate::admin::AdminSet;
use crate::amount::{u256_limit, U256};
use crate::error::Error;
use crate::ledger::{burn_ok_post, mint_ok_post, same_state, ERC20};

verus! {

/// The bootstrap path: creates the admin registry with the deploying
/// identity as its first member, without requiring the caller to already
/// hold the capability.
pub fn constructor(deployer: Address) -> (r: AdminSet)
    ensures
        r.wf(),
        forall|x: Address| r.spec_is_admin(x) == (x == deployer),
{
    let mut admins = AdminSet::new();
    admins.seed_admin(deployer);
    admins
}

/// Admin-gated mint: issues `amount` to `owner` when `caller` holds the
/// capability, and fails with `PermissionDenied` — before touching any
/// store — when it does not.
pub fn mint(
    token: &mut ERC20,
    admins: &AdminSet,
    caller: Address,
    owner: Address,
    amount: U256,
) -> (r: Result<(), Error>)
    requires
        old(token).wf(),
    ensures
        final(token).wf(),
        !admins.spec_is_admin(caller) ==> r == Err::<(), Error>(Error::PermissionDenied)
            && *final(token) == *old(token),
        admins.spec_is_admin(caller) ==> {
            &&& r is Ok <==> old(token).spec_total_supply() + amount@ < u256_limit()
            &&& r is Err ==> r == Err::<(), Error>(Error::Overflow) && same_state(
                *old(token),
                *final(token),
            )
            &&& r is Ok ==> mint_ok_post(*old(token), *final(token), owner, amount@)
        },
{
    if !admins.is_admin(caller) {
        return Err(Error::PermissionDenied);
    }
    token.mint(owner, amount)
}

/// Admin-gated burn: retires `amount` from `owner` when `caller` holds
/// the capability, and fails with `PermissionDenied` — before touching
/// any store — when it does not.
pub fn burn(
    token: &mut ERC20,
    admins: &AdminSet,
    caller: Address,
    owner: Address,
    amount: U256,
) -> (r: Result<(), Error>)
    requires
        old(token).wf(),
    ensures
        final(token).wf(),
        !admins.spec_is_admin(caller) ==> r == Err::<(), Error>(Error::PermissionDenied)
            && *final(token) == *old(token),
        admins.spec_is_admin(caller) ==> {
            &&& r is Ok <==> amount@ <= old(token).spec_balance_of(owner)
            &&& r is Err ==> r == Err::<(), Error>(Error::InsufficientBalance) && same_state(
                *old(token),
                *final(token),
            )
            &&& r is Ok ==> burn_ok_post(*old(token), *final(token), owner, amount@)
        },
{
    if !admins.is_admin(caller) {
        return Err(Error::PermissionDenied);
    }
    token.burn(owner, amount)
}

/// Admin-gated grant of the capability to `account`.
pub fn add_admin(admins: &mut AdminSet, caller: Address, account: Address) -> (r: Result<
    (),
    Error,
>)
    requires
        old(admins).wf(),
    ensures
        final(admins).wf(),
        !old(admins).spec_is_admin(caller) ==> r == Err::<(), Error>(Error::PermissionDenied)
            && *final(admins) == *old(admins),
        old(admins).spec_is_admin(caller) ==> r is Ok && forall|x: Address|
            final(admins).spec_is_admin(x) == (x == account || old(admins).spec_is_admin(x)),
{
    if !admins.is_admin(caller) {
        return Err(Error::PermissionDenied);
    }
    admins.seed_admin(account);
    Ok(())
}

/// Admin-gated revocation of the capability of `account`.
pub fn remove_admin(admins: &mut AdminSet, caller: Address, account: Address) -> (r: Result<
    (),
    Error,
>)
    requires
        old(admins).wf(),
    ensures
        final(admins).wf(),
        !old(admins).spec_is_admin(caller) ==> r == Err::<(), Error>(Error::PermissionDenied)
            && *final(admins) == *old(admins),
        old(admins).spec_is_admin(caller) ==> r is Ok && forall|x: Address|
            final(admins).spec_is_admin(x) == (x != account && old(admins).spec_is_admin(x)),
{
    if !admins.is_admin(caller) {
        return Err(Error::PermissionDenied);
    }
    admins.revoke_admin(account);
    Ok(())
}

} // verus!

use crate::types::{BlockHeight, ClaimRecord, Error, Identity};
use vstd::prelude::*;

verus! {

/// What creating a claim yields, given what is stored for it: the record to
/// store, or the refusal.
pub open spec fn create_outcome(
    state: Option<ClaimRecord>,
    caller: Identity,
    now: BlockHeight,
) -> Result<ClaimRecord, Error> {
    match state {
        Some(_) => Err(Error::ProofAlreadyExists),
        None => Ok(ClaimRecord { owner: caller, registered_at: now }),
    }
}

/// What revoking a claim yields, given what is stored for it: leave to remove
/// the record, or the refusal. A missing record is reported before ownership
/// is looked at.
pub open spec fn revoke_outcome(state: Option<ClaimRecord>, caller: Identity) -> Result<
    (),
    Error,
> {
    match state {
        None => Err(Error::ClaimNotExist),
        Some(record) => if record.owner == caller {
            Ok(())
        } else {
            Err(Error::NotClaimOwner)
        },
    }
}

/// What transferring a claim yields, given what is stored for it: the record
/// that replaces the stored one, or the refusal. A missing record is reported
/// before ownership is looked at; the recipient may be the caller.
pub open spec fn transfer_outcome(
    state: Option<ClaimRecord>,
    caller: Identity,
    recipient: Identity,
    now: BlockHeight,
) -> Result<ClaimRecord, Error> {
    match state {
        None => Err(Error::ClaimNotExist),
        Some(record) => if record.owner == caller {
            Ok(ClaimRecord { owner: recipient, registered_at: now })
        } else {
            Err(Error::NotClaimOwner)
        },
    }
}

/// Decides a creation by `caller` at height `now` for a claim whose stored
/// record is `state`.
pub fn decide_create(state: Option<ClaimRecord>, caller: Identity, now: BlockHeight) -> (r: Result<
    ClaimRecord,
    Error,
>)
    ensures
        r == create_outcome(state, caller, now),
{
    match state {
        Some(_) => Err(Error::ProofAlreadyExists),
        None => Ok(ClaimRecord { owner: caller, registered_at: now }),
    }
}

/// Decides a revocation by `caller` for a claim whose stored record is
/// `state`.
pub fn decide_revoke(state: Option<ClaimRecord>, caller: Identity) -> (r: Result<(), Error>)
    ensures
        r == revoke_outcome(state, caller),
{
    match state {
        None => Err(Error::ClaimNotExist),
        Some(record) => {
            if record.owner == caller {
                Ok(())
            } else {
                Err(Error::NotClaimOwner)
            }
        },
    }
}

/// Decides a transfer by `caller` to `recipient` at height `now` for a claim
/// whose stored record is `state`.
pub fn decide_transfer(
    state: Option<ClaimRecord>,
    caller: Identity,
    recipient: Identity,
    now: BlockHeight,
) -> (r: Result<ClaimRecord, Error>)
    ensures
        r == transfer_outcome(state, caller, recipient, now),
{
    match state {
        None => Err(Error::ClaimNotExist),
        Some(record) => {
            if record.owner == caller {
                Ok(ClaimRecord { owner: recipient, registered_at: now })
            } else {
                Err(Error::NotClaimOwner)
            }
        },
    }
}

} // verus!

use crate::model::{
    after_create, after_revoke, after_trans, create_result, keys_within, lookup, revoke_result,
    trans_result, Proofs,
};
use crate::types::{BlockHeight, ClaimRecord, Error, Identity};
use vstd::prelude::*;

verus! {

/// Once a claim has been created, creating it again is refused as already
/// existing, whoever asks, and the registry stays as the first creation left
/// it: the claim is still owned by its first creator.
pub proof fn law_duplicate_create_refused(
    max_len: u32,
    proofs: Proofs,
    first: Identity,
    second: Identity,
    claim: Seq<u8>,
    now: BlockHeight,
    later: BlockHeight,
)
    requires
        create_result(max_len, proofs, first, claim, now) is Ok,
    ensures
        ({
            let created = after_create(max_len, proofs, first, claim, now);
            &&& create_result(max_len, created, second, claim, later) == Err::<ClaimRecord, Error>(
                Error::ProofAlreadyExists,
            )
            &&& after_create(max_len, created, second, claim, later) == created
            &&& lookup(created, claim) == Some(ClaimRecord { owner: first, registered_at: now })
        }),
{
}

/// A claim can be revoked or transferred by its owner alone: anyone else is
/// refused as not the owner, and the registry is left unchanged.
pub proof fn law_ownership_gate(
    proofs: Proofs,
    owner: Identity,
    caller: Identity,
    claim: Seq<u8>,
    recipient: Identity,
    now: BlockHeight,
)
    requires
        proofs.contains_key(claim),
        proofs[claim].owner == owner,
        caller != owner,
    ensures
        revoke_result(proofs, caller, claim) == Err::<(), Error>(Error::NotClaimOwner),
        after_revoke(proofs, caller, claim) == proofs,
        trans_result(proofs, caller, claim, recipient, now) == Err::<ClaimRecord, Error>(
            Error::NotClaimOwner,
        ),
        after_trans(proofs, caller, claim, recipient, now) == proofs,
{
}

/// Revoking or transferring a claim that is not registered is refused as not
/// existing, whoever the caller is, and the registry is left unchanged.
pub proof fn law_existence_gate(
    proofs: Proofs,
    caller: Identity,
    claim: Seq<u8>,
    recipient: Identity,
    now: BlockHeight,
)
    requires
        !proofs.contains_key(claim),
    ensures
        revoke_result(proofs, caller, claim) == Err::<(), Error>(Error::ClaimNotExist),
        after_revoke(proofs, caller, claim) == proofs,
        trans_result(proofs, caller, claim, recipient, now) == Err::<ClaimRecord, Error>(
            Error::ClaimNotExist,
        ),
        after_trans(proofs, caller, claim, recipient, now) == proofs,
{
}

/// Creating a claim and then revoking it as its creator succeeds and leaves
/// the claim unregistered: the registry is as it was before the creation.
pub proof fn law_create_then_revoke(
    max_len: u32,
    proofs: Proofs,
    caller: Identity,
    claim: Seq<u8>,
    now: BlockHeight,
)
    requires
        create_result(max_len, proofs, caller, claim, now) is Ok,
    ensures
        ({
            let created = after_create(max_len, proofs, caller, claim, now);
            &&& revoke_result(created, caller, claim) is Ok
            &&& !after_revoke(created, caller, claim).contains_key(claim)
            &&& after_revoke(created, caller, claim) == proofs
        }),
{
    let created = after_create(max_len, proofs, caller, claim, now);
    assert(after_revoke(created, caller, claim) =~= proofs);
}

/// Transferring a claim to another identity changes its owner and height and
/// nothing else: afterwards the former owner can no longer revoke it, and the
/// new owner can.
pub proof fn law_transfer_moves_ownership(
    max_len: u32,
    proofs: Proofs,
    creator: Identity,
    recipient: Identity,
    claim: Seq<u8>,
    now: BlockHeight,
    later: BlockHeight,
)
    requires
        create_result(max_len, proofs, creator, claim, now) is Ok,
        recipient != creator,
    ensures
        ({
            let created = after_create(max_len, proofs, creator, claim, now);
            let moved = after_trans(created, creator, claim, recipient, later);
            &&& trans_result(created, creator, claim, recipient, later) is Ok
            &&& moved == created.insert(
                claim,
                ClaimRecord { owner: recipient, registered_at: later },
            )
            &&& moved.dom() == created.dom()
            &&& revoke_result(moved, creator, claim) == Err::<(), Error>(Error::NotClaimOwner)
            &&& revoke_result(moved, recipient, claim) is Ok
            &&& !after_revoke(moved, recipient, claim).contains_key(claim)
        }),
{
    let created = after_create(max_len, proofs, creator, claim, now);
    let moved = after_trans(created, creator, claim, recipient, later);
    assert(moved.dom() =~= created.dom());
}

/// A transfer to oneself is permitted: it succeeds and only refreshes the
/// height.
pub proof fn law_self_transfer_permitted(
    proofs: Proofs,
    owner: Identity,
    claim: Seq<u8>,
    now: BlockHeight,
)
    requires
        proofs.contains_key(claim),
        proofs[claim].owner == owner,
    ensures
        trans_result(proofs, owner, claim, owner, now) is Ok,
        after_trans(proofs, owner, claim, owner, now) == proofs.insert(
            claim,
            ClaimRecord { owner, registered_at: now },
        ),
{
}

/// No operation brings a key longer than the maximum into the registry.
pub proof fn law_keys_stay_within(
    max_len: u32,
    proofs: Proofs,
    caller: Identity,
    claim: Seq<u8>,
    recipient: Identity,
    now: BlockHeight,
)
    requires
        keys_within(proofs, max_len),
    ensures
        keys_within(after_create(max_len, proofs, caller, claim, now), max_len),
        keys_within(after_revoke(proofs, caller, claim), max_len),
        keys_within(after_trans(proofs, caller, claim, recipient, now), max_len),
{
}

/// An operation touches no claim but the one it is given.
pub proof fn law_other_claims_untouched(
    max_len: u32,
    proofs: Proofs,
    caller: Identity,
    claim: Seq<u8>,
    recipient: Identity,
    now: BlockHeight,
    other: Seq<u8>,
)
    requires
        other != claim,
    ensures
        lookup(after_create(max_len, proofs, caller, claim, now), other) == lookup(proofs, other),
        lookup(after_revoke(proofs, caller, claim), other) == lookup(proofs, other),
        lookup(after_trans(proofs, caller, claim, recipient, now), other) == lookup(
            proofs,
            other,
        ),
{
}

} // verus!

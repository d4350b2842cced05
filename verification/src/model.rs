use crate::rules::{create_outcome, revoke_outcome, transfer_outcome};
use crate::types::{BlockHeight, ClaimRecord, Error, Identity};
use vstd::prelude::*;

verus! {

/// The registry as a mathematical map, from a claim's bytes to its record.
pub type Proofs = Map<Seq<u8>, ClaimRecord>;

/// What `proofs` stores for `claim`, if anything.
pub open spec fn lookup(proofs: Proofs, claim: Seq<u8>) -> Option<ClaimRecord> {
    if proofs.contains_key(claim) {
        Some(proofs[claim])
    } else {
        None
    }
}

/// Whether no key of `proofs` is longer than `max_len`.
pub open spec fn keys_within(proofs: Proofs, max_len: u32) -> bool {
    forall|k: Seq<u8>| #[trigger] proofs.contains_key(k) ==> k.len() <= max_len
}

/// The verdict on creating `claim`: too long a claim is refused before the
/// registry is looked at.
pub open spec fn create_result(
    max_len: u32,
    proofs: Proofs,
    caller: Identity,
    claim: Seq<u8>,
    now: BlockHeight,
) -> Result<ClaimRecord, Error> {
    if claim.len() > max_len {
        Err(Error::ClaimTooLong)
    } else {
        create_outcome(lookup(proofs, claim), caller, now)
    }
}

/// The registry after an attempt to create `claim`.
pub open spec fn after_create(
    max_len: u32,
    proofs: Proofs,
    caller: Identity,
    claim: Seq<u8>,
    now: BlockHeight,
) -> Proofs {
    match create_result(max_len, proofs, caller, claim, now) {
        Ok(record) => proofs.insert(claim, record),
        Err(_) => proofs,
    }
}

/// The verdict on revoking `claim`.
pub open spec fn revoke_result(proofs: Proofs, caller: Identity, claim: Seq<u8>) -> Result<
    (),
    Error,
> {
    revoke_outcome(lookup(proofs, claim), caller)
}

/// The registry after an attempt to revoke `claim`.
pub open spec fn after_revoke(proofs: Proofs, caller: Identity, claim: Seq<u8>) -> Proofs {
    match revoke_result(proofs, caller, claim) {
        Ok(_) => proofs.remove(claim),
        Err(_) => proofs,
    }
}

/// The verdict on transferring `claim` to `recipient`.
pub open spec fn trans_result(
    proofs: Proofs,
    caller: Identity,
    claim: Seq<u8>,
    recipient: Identity,
    now: BlockHeight,
) -> Result<ClaimRecord, Error> {
    transfer_outcome(lookup(proofs, claim), caller, recipient, now)
}

/// The registry after an attempt to transfer `claim` to `recipient`.
pub open spec fn after_trans(
    proofs: Proofs,
    caller: Identity,
    claim: Seq<u8>,
    recipient: Identity,
    now: BlockHeight,
) -> Proofs {
    match trans_result(proofs, caller, claim, recipient, now) {
        Ok(record) => proofs.insert(claim, record),
        Err(_) => proofs,
    }
}

} // verus!

use crate::claim::Claim;
use vstd::prelude::*;

verus! {

/// An authenticated principal, as resolved by the host.
pub type Identity = u64;

/// The host's block counter.
pub type BlockHeight = u64;

/// Why an operation was refused.
#[derive(Clone, Copy, Debug, PartialEq, Eq, Structural)]
pub enum Error {
    /// The claim is already registered.
    ProofAlreadyExists,
    /// The claim's bytes exceed the maximum length.
    ClaimTooLong,
    /// The claim is not registered.
    ClaimNotExist,
    /// The caller is not the claim's current owner.
    NotClaimOwner,
}

/// The registry's configuration, fixed when the registry is built.
#[derive(Clone, Copy, Debug, PartialEq, Eq, Structural)]
pub struct Config {
    /// The greatest admissible length of a claim, in bytes.
    pub max_claim_length: u32,
}

/// What the registry stores for a claim.
#[derive(Clone, Copy, Debug, PartialEq, Eq, Structural)]
pub struct ClaimRecord {
    /// The identity that currently controls the claim.
    pub owner: Identity,
    /// The block height at which the claim was created or last transferred.
    pub registered_at: BlockHeight,
}

/// What a successful operation reports, for the host to publish.
#[derive(Debug, PartialEq, Eq)]
pub enum Event {
    /// A claim was registered by `who`.
    ClaimCreated { who: Identity, claim: Claim },
    /// A claim was removed by its owner `who`.
    ClaimRevoked { who: Identity, claim: Claim },
    /// A claim passed from `who` to `to`.
    ClaimTransferred { who: Identity, claim: Claim, to: Identity },
}

/// An event with each claim taken by its bytes.
pub enum EventView {
    ClaimCreated { who: Identity, claim: Seq<u8> },
    ClaimRevoked { who: Identity, claim: Seq<u8> },
    ClaimTransferred { who: Identity, claim: Seq<u8>, to: Identity },
}

impl View for Event {
    type V = EventView;

    open spec fn view(&self) -> EventView {
        match *self {
            Event::ClaimCreated { who, claim } => EventView::ClaimCreated { who, claim: claim@ },
            Event::ClaimRevoked { who, claim } => EventView::ClaimRevoked { who, claim: claim@ },
            Event::ClaimTransferred { who, claim, to } => EventView::ClaimTransferred {
                who,
                claim: claim@,
                to,
            },
        }
    }
}

impl Clone for Event {
    fn clone(&self) -> (r: Self)
        ensures
            r@ == self@,
    {
        match self {
            Event::ClaimCreated { who, claim } => Event::ClaimCreated {
                who: *who,
                claim: claim.clone(),
            },
            Event::ClaimRevoked { who, claim } => Event::ClaimRevoked {
                who: *who,
                claim: claim.clone(),
            },
            Event::ClaimTransferred { who, claim, to } => Event::ClaimTransferred {
                who: *who,
                claim: claim.clone(),
                to: *to,
            },
        }
    }
}

} // verus!

use pallet_poe::{Claim, ClaimRecord, Config, Error, Event, Pallet};

fn registry() -> Pallet {
    Pallet::new(Config { max_claim_length: 32 })
}

fn claim(bytes: Vec<u8>) -> Claim {
    Claim::try_from_vec(bytes, 32).unwrap()
}

#[test]
fn create_claim_works() {
    let mut poe = registry();
    let claim = Claim::try_from_vec(vec![0, 1], 32).unwrap();

    assert!(poe.create_claim(1, claim.clone(), 7).is_ok());
    assert_eq!(poe.proofs(&claim), Some(ClaimRecord { owner: 1, registered_at: 7 }));
}

#[test]
fn create_claim_failed_when_claim_already_exist() {
    let mut poe = registry();
    let claim = Claim::try_from_vec(vec![0, 1], 32).unwrap();

    let _ = poe.create_claim(1, claim.clone(), 7);
    let before = poe.proofs(&claim);
    assert_eq!(poe.create_claim(1, claim.clone(), 8), Err(Error::ProofAlreadyExists));
    assert_eq!(poe.proofs(&claim), before);
    assert_eq!(before, Some(ClaimRecord { owner: 1, registered_at: 7 }));
}

#[test]
fn revoke_claim_works() {
    let mut poe = registry();
    let claim = Claim::try_from_vec(vec![0, 1], 32).unwrap();

    let _ = poe.create_claim(1, claim.clone(), 7);
    assert!(poe.revoke_claim(1, claim.clone()).is_ok());
    assert_eq!(poe.proofs(&claim), None);
}

#[test]
fn revoke_claim_failed_when_claim_is_not_exist() {
    let mut poe = registry();
    let claim = Claim::try_from_vec(vec![0, 1], 32).unwrap();

    assert_eq!(poe.revoke_claim(1, claim.clone()), Err(Error::ClaimNotExist));
    assert_eq!(poe.proofs(&claim), None);
}

#[test]
fn revoke_claim_failed_when_claim_with_wrong_owner() {
    let mut poe = registry();
    let claim = Claim::try_from_vec(vec![0, 1], 32).unwrap();
    let _ = poe.create_claim(1, claim.clone(), 7);

    assert_eq!(poe.revoke_claim(2, claim.clone()), Err(Error::NotClaimOwner));
    assert_eq!(poe.proofs(&claim), Some(ClaimRecord { owner: 1, registered_at: 7 }));
}

#[test]
fn transfer_claim_works() {
    let mut poe = registry();
    let claim = Claim::try_from_vec(vec![0, 1], 32).unwrap();
    let _ = poe.create_claim(1, claim.clone(), 7);
    let receive = 2;

    assert!(poe.trans_claim(1, claim.clone(), receive, 9).is_ok());
    assert_eq!(poe.proofs(&claim), Some(ClaimRecord { owner: 2, registered_at: 9 }));
}

#[test]
fn transfer_claim_failed_when_claim_is_not_exist() {
    let mut poe = registry();
    let claim = Claim::try_from_vec(vec![0, 1], 32).unwrap();
    let receive = 2;

    assert_eq!(poe.trans_claim(1, claim.clone(), receive, 9), Err(Error::ClaimNotExist));
    assert_eq!(poe.proofs(&claim), None);
}

// Nothing is registered here, and a missing claim is reported before
// ownership is looked at.
#[test]
fn transfer_claim_failed_with_wrong_owner() {
    let mut poe = registry();
    let claim = Claim::try_from_vec(vec![0, 1], 32).unwrap();
    let receive = 2;

    assert_eq!(poe.trans_claim(3, claim.clone(), receive, 9), Err(Error::ClaimNotExist));
    assert_eq!(poe.proofs(&claim), None);
}

// Nothing is registered here either; a transfer to oneself is not an error
// of its own.
#[test]
fn transfer_claim_failed_with_not_transfer_self() {
    let mut poe = registry();
    let claim = Claim::try_from_vec(vec![0, 1], 32).unwrap();
    let receive = 1;

    assert_eq!(poe.trans_claim(1, claim.clone(), receive, 9), Err(Error::ClaimNotExist));
    assert_eq!(poe.proofs(&claim), None);
}

#[test]
fn transfer_by_stranger_is_refused_and_changes_nothing() {
    let mut poe = registry();
    let c = claim(vec![0, 1]);
    poe.create_claim(1, c.clone(), 7).unwrap();

    assert_eq!(poe.trans_claim(3, c.clone(), 2, 9), Err(Error::NotClaimOwner));
    assert_eq!(poe.proofs(&c), Some(ClaimRecord { owner: 1, registered_at: 7 }));
}

#[test]
fn transfer_to_self_is_permitted_and_refreshes_height() {
    let mut poe = registry();
    let c = claim(vec![0, 1]);
    poe.create_claim(1, c.clone(), 7).unwrap();

    assert_eq!(
        poe.trans_claim(1, c.clone(), 1, 12),
        Ok(Event::ClaimTransferred { who: 1, claim: c.clone(), to: 1 })
    );
    assert_eq!(poe.proofs(&c), Some(ClaimRecord { owner: 1, registered_at: 12 }));
}

#[test]
fn whole_life_of_one_claim() {
    let mut poe = registry();
    let c = claim(vec![0, 1]);

    assert_eq!(
        poe.create_claim(1, c.clone(), 10),
        Ok(Event::ClaimCreated { who: 1, claim: c.clone() })
    );
    assert_eq!(poe.proofs(&c), Some(ClaimRecord { owner: 1, registered_at: 10 }));

    assert_eq!(poe.create_claim(1, c.clone(), 11), Err(Error::ProofAlreadyExists));
    assert_eq!(poe.revoke_claim(2, c.clone()), Err(Error::NotClaimOwner));

    assert_eq!(
        poe.trans_claim(1, c.clone(), 2, 20),
        Ok(Event::ClaimTransferred { who: 1, claim: c.clone(), to: 2 })
    );
    assert_eq!(poe.proofs(&c), Some(ClaimRecord { owner: 2, registered_at: 20 }));

    assert_eq!(poe.revoke_claim(1, c.clone()), Err(Error::NotClaimOwner));
    assert_eq!(
        poe.revoke_claim(2, c.clone()),
        Ok(Event::ClaimRevoked { who: 2, claim: c.clone() })
    );
    assert_eq!(poe.proofs(&c), None);
}

#[test]
fn duplicate_create_by_another_caller_keeps_first_owner() {
    let mut poe = registry();
    let c = claim(vec![9, 9, 9]);
    poe.create_claim(4, c.clone(), 1).unwrap();

    assert_eq!(poe.create_claim(5, c.clone(), 2), Err(Error::ProofAlreadyExists));
    assert_eq!(poe.proofs(&c), Some(ClaimRecord { owner: 4, registered_at: 1 }));
}

#[test]
fn revoked_claim_can_be_created_again() {
    let mut poe = registry();
    let c = claim(vec![5]);
    poe.create_claim(1, c.clone(), 1).unwrap();
    poe.revoke_claim(1, c.clone()).unwrap();

    assert!(poe.create_claim(2, c.clone(), 3).is_ok());
    assert_eq!(poe.proofs(&c), Some(ClaimRecord { owner: 2, registered_at: 3 }));
}

#[test]
fn operations_leave_other_claims_alone() {
    let mut poe = registry();
    let a = claim(vec![1]);
    let b = claim(vec![1, 0]);
    let c = claim(vec![]);
    poe.create_claim(1, a.clone(), 1).unwrap();
    poe.create_claim(2, b.clone(), 2).unwrap();
    poe.create_claim(3, c.clone(), 3).unwrap();

    poe.trans_claim(2, b.clone(), 7, 4).unwrap();
    assert_eq!(poe.proofs(&a), Some(ClaimRecord { owner: 1, registered_at: 1 }));
    assert_eq!(poe.proofs(&b), Some(ClaimRecord { owner: 7, registered_at: 4 }));
    assert_eq!(poe.proofs(&c), Some(ClaimRecord { owner: 3, registered_at: 3 }));

    poe.revoke_claim(1, a.clone()).unwrap();
    assert_eq!(poe.proofs(&a), None);
    assert_eq!(poe.proofs(&b), Some(ClaimRecord { owner: 7, registered_at: 4 }));
    assert_eq!(poe.proofs(&c), Some(ClaimRecord { owner: 3, registered_at: 3 }));

    poe.revoke_claim(3, c.clone()).unwrap();
    assert_eq!(poe.proofs(&b), Some(ClaimRecord { owner: 7, registered_at: 4 }));
    assert_eq!(poe.proofs(&c), None);
}

#[test]
fn claim_longer_than_the_registry_allows_is_refused() {
    let mut poe = Pallet::new(Config { max_claim_length: 2 });
    let long = Claim::try_from_vec(vec![1, 2, 3], 32).unwrap();
    let fits = Claim::try_from_vec(vec![1, 2], 32).unwrap();

    assert_eq!(poe.create_claim(1, long.clone(), 1), Err(Error::ClaimTooLong));
    assert_eq!(poe.proofs(&long), None);
    assert_eq!(poe.revoke_claim(1, long.clone()), Err(Error::ClaimNotExist));
    assert_eq!(poe.trans_claim(1, long.clone(), 2, 1), Err(Error::ClaimNotExist));
    assert!(poe.create_claim(1, fits.clone(), 1).is_ok());
}

#[test]
fn too_long_is_reported_before_already_existing() {
    let mut narrow = Pallet::new(Config { max_claim_length: 0 });
    let empty = Claim::try_from_vec(vec![], 0).unwrap();
    let one = Claim::try_from_vec(vec![1], 8).unwrap();

    assert!(narrow.create_claim(1, empty.clone(), 1).is_ok());
    assert_eq!(narrow.create_claim(1, empty.clone(), 1), Err(Error::ProofAlreadyExists));
    assert_eq!(narrow.create_claim(1, one, 1), Err(Error::ClaimTooLong));
}

#[test]
fn config_is_kept() {
    let mut poe = Pallet::new(Config { max_claim_length: 5 });
    assert_eq!(poe.config(), Config { max_claim_length: 5 });
    poe.create_claim(1, Claim::try_from_vec(vec![1], 5).unwrap(), 1).unwrap();
    assert_eq!(poe.config().max_claim_length, 5);
}

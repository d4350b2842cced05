use pallet_poe::{Claim, Error, Event};

#[test]
fn claim_within_bound_is_built() {
    let c = Claim::try_from_vec(vec![0, 1], 32).unwrap();
    assert_eq!(c.as_slice(), &[0u8, 1][..]);
    assert_eq!(c.len(), 2);
}

#[test]
fn claim_of_exactly_the_bound_is_built() {
    let bytes: Vec<u8> = (0..32).collect();
    let c = Claim::try_from_vec(bytes.clone(), 32).unwrap();
    assert_eq!(c.len(), 32);
    assert_eq!(c.as_slice(), &bytes[..]);
}

#[test]
fn claim_one_over_the_bound_is_too_long() {
    let bytes: Vec<u8> = (0..33).collect();
    assert_eq!(Claim::try_from_vec(bytes, 32), Err(Error::ClaimTooLong));
}

#[test]
fn empty_claim_fits_any_bound() {
    let c = Claim::try_from_vec(vec![], 0).unwrap();
    assert_eq!(c.len(), 0);
    assert_eq!(Claim::try_from_vec(vec![7], 0), Err(Error::ClaimTooLong));
}

#[test]
fn claims_are_equal_by_their_bytes() {
    let a = Claim::try_from_vec(vec![1, 2, 3], 32).unwrap();
    let b = Claim::try_from_vec(vec![1, 2, 3], 3).unwrap();
    let c = Claim::try_from_vec(vec![1, 2, 4], 32).unwrap();
    let d = Claim::try_from_vec(vec![1, 2], 32).unwrap();
    assert_eq!(a, b);
    assert_ne!(a, c);
    assert_ne!(a, d);
}

#[test]
fn cloned_claim_holds_the_same_bytes() {
    let a = Claim::try_from_vec(vec![4, 5, 6], 16).unwrap();
    let b = a.clone();
    assert_eq!(a, b);
    assert_eq!(b.as_slice(), &[4u8, 5, 6][..]);
}

#[test]
fn cloned_event_is_the_same_event() {
    let c = Claim::try_from_vec(vec![4, 5, 6], 16).unwrap();
    let created = Event::ClaimCreated { who: 1, claim: c.clone() };
    let revoked = Event::ClaimRevoked { who: 1, claim: c.clone() };
    let moved = Event::ClaimTransferred { who: 1, claim: c.clone(), to: 2 };
    assert_eq!(created.clone(), created);
    assert_eq!(revoked.clone(), revoked);
    assert_eq!(moved.clone(), moved);
    assert_ne!(created, revoked);
}

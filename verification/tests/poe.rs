use runtime_modules::poe::{same_bytes, Error, Pallet};

const CLAIM_LENGTH_LIMIT: usize = 2;
const BLOCK_NUMBER: u64 = 0;

fn new_test_ext() -> Pallet {
    Pallet::new(CLAIM_LENGTH_LIMIT)
}

#[test]
fn create_claim_succeeds() {
    let mut poe = new_test_ext();
    let claim = vec![0, 1];
    assert_eq!(poe.create_claim(1, claim.clone(), BLOCK_NUMBER), Ok(()));
    assert_eq!(poe.proofs(&claim), Some((1, BLOCK_NUMBER)));
}

#[test]
fn create_claim_fails_with_proof_existing() {
    let mut poe = new_test_ext();
    let claim = vec![0, 1];
    let _ = poe.create_claim(1, claim.clone(), BLOCK_NUMBER);

    assert_eq!(
        poe.create_claim(1, claim.clone(), BLOCK_NUMBER),
        Err(Error::ProofAlreadyExist)
    );
    assert_eq!(poe.proofs(&claim), Some((1, BLOCK_NUMBER)));
}

#[test]
fn create_claim_fails_with_limit_exceeding() {
    let mut poe = new_test_ext();
    let claim = vec![0, 1, 2];
    let _ = poe.create_claim(1, claim.clone(), BLOCK_NUMBER);

    assert_eq!(
        poe.create_claim(1, claim.clone(), BLOCK_NUMBER),
        Err(Error::ClaimLengthLimitExceed)
    );
    assert_eq!(poe.proofs(&claim), None);
}

#[test]
fn revoke_claim_succeeds() {
    let mut poe = new_test_ext();
    let claim = vec![0, 1];
    let _ = poe.create_claim(1, claim.clone(), BLOCK_NUMBER);

    assert_eq!(poe.revoke_claim(1, claim.clone()), Ok(()));
    assert_eq!(poe.proofs(&claim), None);
}

#[test]
fn revoke_claim_fails_with_claim_not_existing() {
    let mut poe = new_test_ext();
    let claim = vec![0, 1];

    assert_eq!(poe.revoke_claim(1, claim.clone()), Err(Error::ClaimNotExist));
}

#[test]
fn transfer_claim_succeeds() {
    let mut poe = new_test_ext();
    let claim = vec![0, 1];
    let _ = poe.create_claim(1, claim.clone(), BLOCK_NUMBER);

    assert_eq!(poe.transfer_claim(1, claim.clone(), 2, BLOCK_NUMBER), Ok(()));
    assert_eq!(poe.proofs(&claim), Some((2, BLOCK_NUMBER)));
}

#[test]
fn transfer_claim_fails_with_claim_not_existing() {
    let mut poe = new_test_ext();
    let claim = vec![0, 1];

    assert_eq!(
        poe.transfer_claim(1, claim.clone(), 2, BLOCK_NUMBER),
        Err(Error::ClaimNotExist)
    );
}

#[test]
fn transfer_claim_fails_with_wrong_claim_owner() {
    let mut poe = new_test_ext();
    let claim = vec![0, 1];
    let _ = poe.create_claim(6, claim.clone(), BLOCK_NUMBER);

    assert_eq!(
        poe.transfer_claim(1, claim.clone(), 2, BLOCK_NUMBER),
        Err(Error::NotClaimOwner)
    );
    assert_eq!(poe.proofs(&claim), Some((6, BLOCK_NUMBER)));
}

#[test]
fn revoke_claim_fails_with_wrong_claim_owner() {
    let mut poe = new_test_ext();
    let claim = vec![0, 1];
    let _ = poe.create_claim(6, claim.clone(), BLOCK_NUMBER);

    assert_eq!(poe.revoke_claim(1, claim.clone()), Err(Error::NotClaimOwner));
    assert_eq!(poe.proofs(&claim), Some((6, BLOCK_NUMBER)));
}

#[test]
fn claims_are_kept_apart() {
    let mut poe = Pallet::new(4);
    assert_eq!(poe.create_claim(1, vec![1], 10), Ok(()));
    assert_eq!(poe.create_claim(2, vec![1, 2], 11), Ok(()));
    assert_eq!(poe.create_claim(3, vec![], 12), Ok(()));
    assert_eq!(poe.create_claim(4, vec![9, 9, 9, 9], 13), Ok(()));
    assert_eq!(
        poe.create_claim(4, vec![9, 9, 9, 9, 9], 13),
        Err(Error::ClaimLengthLimitExceed)
    );

    assert_eq!(poe.transfer_claim(2, vec![1, 2], 7, 20), Ok(()));
    assert_eq!(poe.proofs(&vec![1]), Some((1, 10)));
    assert_eq!(poe.proofs(&vec![1, 2]), Some((7, 20)));
    assert_eq!(poe.proofs(&vec![]), Some((3, 12)));

    assert_eq!(poe.revoke_claim(1, vec![1]), Ok(()));
    assert_eq!(poe.proofs(&vec![1]), None);
    assert_eq!(poe.proofs(&vec![1, 2]), Some((7, 20)));
    assert_eq!(poe.proofs(&vec![]), Some((3, 12)));
    assert_eq!(poe.proofs(&vec![9, 9, 9, 9]), Some((4, 13)));

    // A revoked claim can be made again.
    assert_eq!(poe.create_claim(5, vec![1], 30), Ok(()));
    assert_eq!(poe.proofs(&vec![1]), Some((5, 30)));
}

#[test]
fn same_bytes_compares_length_and_content() {
    assert!(same_bytes(&vec![1, 2, 3], &vec![1, 2, 3]));
    assert!(!same_bytes(&vec![1, 2, 3], &vec![1, 2]));
    assert!(!same_bytes(&vec![1, 2, 3], &vec![1, 2, 4]));
    assert!(same_bytes(&vec![], &vec![]));
}

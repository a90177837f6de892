use anchor_contracts::address::Address;
use anchor_contracts::kyc::{get_tier_limit, kyc_message_bytes, KycError, KycTier, KycVerifier};
use ed25519_dalek::{Signer, SigningKey};

fn addr(n: u8) -> Address {
    Address::from_bytes(vec![0, 0, 0, 18, 0, 0, 0, 0, n, n])
}

fn verifier_key(seed: u8) -> SigningKey {
    SigningKey::from_bytes(&[seed; 32])
}

fn sign(key: &SigningKey, user: &Address, expires_at: u64) -> [u8; 64] {
    key.sign(&kyc_message_bytes(user, expires_at)).to_bytes()
}

fn setup() -> (KycVerifier, SigningKey) {
    let key = verifier_key(7);
    let mut v = KycVerifier::new();
    v.initialize(addr(200), key.verifying_key().to_bytes()).unwrap();
    (v, key)
}

#[test]
fn message_is_address_then_big_endian_expiry() {
    let user = Address::from_bytes(vec![9, 8, 7]);
    let m = kyc_message_bytes(&user, 0x0102_0304_0506_0708);
    let mut expected = vec![9u8, 8, 7];
    expected.extend_from_slice(&(0x0102_0304_0506_0708u64 as u128).to_be_bytes());
    assert_eq!(m, expected);
    assert_eq!(m.len(), 3 + 16);
}

#[test]
fn signed_proof_is_recorded_and_valid_until_expiry() {
    let (mut v, key) = setup();
    let user = addr(1);
    let sig = sign(&key, &user, 1000);
    v.set_kyc_status(&user, KycTier::Pro, &sig, 1000, 500).unwrap();
    assert_eq!(v.is_kyc_valid(&user, 500), Ok(true));
    assert_eq!(v.is_kyc_valid(&user, 999), Ok(true));
    assert_eq!(v.is_kyc_valid(&user, 1000), Ok(false));
    assert_eq!(v.is_kyc_valid(&addr(2), 500), Ok(false));
}

#[test]
fn bad_proofs_are_refused() {
    let (mut v, key) = setup();
    let user = addr(1);
    let sig = sign(&key, &user, 1000);
    assert_eq!(v.set_kyc_status(&user, KycTier::Basic, &sig, 1000, 1000), Err(KycError::ProofExpired));
    // the signature covers expiry 1000, not 2000
    assert_eq!(v.set_kyc_status(&user, KycTier::Basic, &sig, 2000, 10), Err(KycError::InvalidSignature));
    // the signature covers `user`, not another address
    assert_eq!(v.set_kyc_status(&addr(2), KycTier::Basic, &sig, 1000, 10), Err(KycError::InvalidSignature));
    // a signature by another key
    let other = sign(&verifier_key(8), &user, 1000);
    assert_eq!(v.set_kyc_status(&user, KycTier::Basic, &other, 1000, 10), Err(KycError::InvalidSignature));
    assert_eq!(v.is_kyc_valid(&user, 10), Ok(false));
}

#[test]
fn updating_the_verifier_invalidates_earlier_proofs() {
    let (mut v, key) = setup();
    let user = addr(1);
    v.set_kyc_status(&user, KycTier::Basic, &sign(&key, &user, 1000), 1000, 0).unwrap();
    assert_eq!(v.is_kyc_valid(&user, 1), Ok(true));
    let new_key = verifier_key(9);
    v.update_verifier(new_key.verifying_key().to_bytes()).unwrap();
    assert_eq!(v.is_kyc_valid(&user, 1), Ok(false));
    // proofs by the old key are refused now, proofs by the new key are accepted
    assert_eq!(
        v.set_kyc_status(&user, KycTier::Basic, &sign(&key, &user, 1000), 1000, 0),
        Err(KycError::InvalidSignature)
    );
    v.set_kyc_status(&user, KycTier::Basic, &sign(&new_key, &user, 1000), 1000, 0).unwrap();
    assert_eq!(v.is_kyc_valid(&user, 1), Ok(true));
}

#[test]
fn batch_is_all_or_nothing() {
    let (mut v, key) = setup();
    let a = addr(1);
    let b = addr(2);
    let users = vec![addr(1), addr(2)];
    let tiers = vec![KycTier::Basic, KycTier::Pro];
    let good = vec![sign(&key, &a, 100), sign(&key, &b, 200)];
    let bad = vec![sign(&key, &a, 100), sign(&key, &b, 999)];
    let exps = vec![100u64, 200u64];
    assert_eq!(v.batch_set_kyc_status(&users, &tiers, &bad, &exps, 0), Err(KycError::InvalidSignature));
    assert_eq!(v.is_kyc_valid(&a, 0), Ok(false));
    assert_eq!(
        v.batch_set_kyc_status(&users, &tiers, &good, &vec![100u64], 0),
        Err(KycError::LengthMismatch)
    );
    v.batch_set_kyc_status(&users, &tiers, &good, &exps, 0).unwrap();
    assert_eq!(v.is_kyc_valid(&a, 150), Ok(false));
    assert_eq!(v.is_kyc_valid(&b, 150), Ok(true));
}

#[test]
fn uninitialized_verifier_refuses() {
    let mut v = KycVerifier::new();
    let user = addr(1);
    let key = verifier_key(7);
    assert_eq!(v.is_kyc_valid(&user, 0), Err(KycError::NotInitialized));
    assert_eq!(
        v.set_kyc_status(&user, KycTier::Basic, &sign(&key, &user, 10), 10, 0),
        Err(KycError::NotInitialized)
    );
    assert_eq!(v.update_verifier([1; 32]), Err(KycError::NotInitialized));
    assert_eq!(
        v.batch_set_kyc_status(&vec![], &vec![], &vec![], &vec![], 0),
        Err(KycError::NotInitialized)
    );
    v.initialize(addr(200), key.verifying_key().to_bytes()).unwrap();
    assert_eq!(v.initialize(addr(201), [0; 32]), Err(KycError::AlreadyInitialized));
}

#[test]
fn tier_limits_and_codes() {
    assert_eq!(get_tier_limit(KycTier::Basic), 1_000_000_000);
    assert_eq!(get_tier_limit(KycTier::Pro), 100_000_000_000);
    assert_eq!(KycTier::Basic.code(), 1);
    assert_eq!(KycTier::Pro.code(), 2);
}

#[test]
fn checked_proofs_are_recorded_by_the_check_answer() {
    let (mut v, _) = setup();
    let user = addr(3);
    assert_eq!(v.record_kyc_proof(&user, KycTier::Basic, 1000, 10, false), Err(KycError::InvalidSignature));
    assert_eq!(v.is_kyc_valid(&user, 10), Ok(false));
    assert_eq!(v.record_kyc_proof(&user, KycTier::Basic, 1000, 1000, true), Err(KycError::ProofExpired));
    v.record_kyc_proof(&user, KycTier::Basic, 1000, 10, true).unwrap();
    assert_eq!(v.is_kyc_valid(&user, 10), Ok(true));
    v.update_verifier([5; 32]).unwrap();
    assert_eq!(v.is_kyc_valid(&user, 10), Ok(false));

    let mut fresh = KycVerifier::new();
    assert_eq!(fresh.record_kyc_proof(&user, KycTier::Pro, 1000, 10, true), Err(KycError::NotInitialized));
}

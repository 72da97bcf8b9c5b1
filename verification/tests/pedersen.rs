use commitments::commitment::Commitment;
use commitments::commitment::CommitmentError;
use commitments::modgroup::GROUP_ORDER;
use commitments::modgroup::ModPoint;
use commitments::natural::Natural;
use commitments::pedersen::PedersenCommitment;
use commitments::pedersen::SerializableCurvePointProjective;

#[test]
fn test_simple_commitment() {
    let value = Natural::from_u64(2);
    let randomness = Natural::from_u64(5);
    let pedersen = PedersenCommitment::<ModPoint>::setup_random();
    let commitment = pedersen.commit(&value, &randomness).unwrap();
    pedersen.open(&commitment, &value, &randomness).unwrap();
    let wrong_value = Natural::from_u64(5);
    pedersen
        .open(&commitment, &wrong_value, &randomness)
        .unwrap_err();
    let wrong_randomness = Natural::from_u64(7);
    pedersen
        .open(&commitment, &value, &wrong_randomness)
        .unwrap_err();
    pedersen
        .open(&commitment, &wrong_value, &wrong_randomness)
        .unwrap_err();
}

#[test]
fn test_wrong_opening_error_kind() {
    let pedersen = PedersenCommitment::<ModPoint>::setup(11, 23);
    let commitment = pedersen
        .commit(&Natural::from_u64(2), &Natural::from_u64(5))
        .unwrap();
    let err = pedersen
        .open(&commitment, &Natural::from_u64(5), &Natural::from_u64(5))
        .unwrap_err();
    assert_eq!(err, CommitmentError::WrongOpening);
}

#[test]
fn test_determinism() {
    let pedersen = PedersenCommitment::<ModPoint>::setup(42, 99);
    let value = Natural::from_u64(123456789);
    let randomness = Natural::from_u64(987654321);
    let first = pedersen.commit(&value, &randomness).unwrap();
    let second = pedersen.commit(&value, &randomness).unwrap();
    assert!(first.eq_instance(&second));
    assert_eq!(first.to_bytes(), second.to_bytes());
}

#[test]
fn test_homomorphism() {
    let pedersen = PedersenCommitment::<ModPoint>::setup(7, 13);
    let c1 = pedersen
        .commit(&Natural::from_u64(2), &Natural::from_u64(5))
        .unwrap();
    let c2 = pedersen
        .commit(&Natural::from_u64(3), &Natural::from_u64(7))
        .unwrap();
    let sum = c1.add(&c2);
    let direct = pedersen
        .commit(&Natural::from_u64(5), &Natural::from_u64(12))
        .unwrap();
    assert!(sum.eq_instance(&direct));
    assert_eq!(sum.to_bytes(), direct.to_bytes());
    pedersen
        .open(&sum, &Natural::from_u64(5), &Natural::from_u64(12))
        .unwrap();
}

#[test]
fn test_domain_rejection_value() {
    let pedersen = PedersenCommitment::<ModPoint>::setup(3, 4);
    let too_big = Natural::from_u64(u64::MAX);
    let err = pedersen
        .commit(&too_big, &Natural::from_u64(5))
        .unwrap_err();
    assert_eq!(err, CommitmentError::IntegerTooBig);
}

#[test]
fn test_domain_rejection_randomness_multilimb() {
    let pedersen = PedersenCommitment::<ModPoint>::setup(3, 4);
    // One whole limb above the first: the number 2^64, outside the domain.
    let too_big = Natural::from_limbs(vec![0, 1]);
    let err = pedersen
        .commit(&Natural::from_u64(2), &too_big)
        .unwrap_err();
    assert_eq!(err, CommitmentError::IntegerTooBig);
    let err = pedersen
        .open(
            &pedersen
                .commit(&Natural::from_u64(2), &Natural::from_u64(5))
                .unwrap(),
            &Natural::from_u64(2),
            &too_big,
        )
        .unwrap_err();
    assert_eq!(err, CommitmentError::IntegerTooBig);
}

#[test]
fn test_domain_boundary() {
    let pedersen = PedersenCommitment::<ModPoint>::setup(3, 4);
    let largest = Natural::from_u64(GROUP_ORDER - 1);
    let commitment = pedersen.commit(&largest, &largest).unwrap();
    pedersen.open(&commitment, &largest, &largest).unwrap();
    let order = Natural::from_u64(GROUP_ORDER);
    let err = pedersen.commit(&order, &largest).unwrap_err();
    assert_eq!(err, CommitmentError::IntegerTooBig);
}

#[test]
fn test_multilimb_equals_single_limb() {
    let pedersen = PedersenCommitment::<ModPoint>::setup(21, 34);
    let a = pedersen
        .commit(&Natural::from_limbs(vec![5]), &Natural::from_u64(9))
        .unwrap();
    let b = pedersen
        .commit(&Natural::from_u64(5), &Natural::from_u64(9))
        .unwrap();
    assert!(a.eq_instance(&b));
}

#[test]
fn test_distinct_keys_distinct_commitments() {
    let value = Natural::from_u64(2);
    let randomness = Natural::from_u64(5);
    let first_key = PedersenCommitment::<ModPoint>::setup(1, 2);
    let second_key = PedersenCommitment::<ModPoint>::setup(3, 4);
    let first = first_key.commit(&value, &randomness).unwrap();
    let second = second_key.commit(&value, &randomness).unwrap();
    assert!(!first.eq_instance(&second));
    assert_ne!(first.to_bytes(), second.to_bytes());
}

#[test]
fn test_independent_setups_differ() {
    let value = Natural::from_u64(2);
    let randomness = Natural::from_u64(5);
    let first_key = PedersenCommitment::<ModPoint>::setup_random();
    let second_key = PedersenCommitment::<ModPoint>::setup_random();
    let first = first_key.commit(&value, &randomness).unwrap();
    let second = second_key.commit(&value, &randomness).unwrap();
    // Equal commitments under independently drawn keys are a negligible-
    // probability event.
    assert_ne!(first.to_bytes(), second.to_bytes());
}

#[test]
fn test_new_copies_generators() {
    let key = PedersenCommitment::<ModPoint>::setup(77, 88);
    let copy = PedersenCommitment::new(&key.g, &key.h);
    let value = Natural::from_u64(31);
    let randomness = Natural::from_u64(64);
    let commitment = key.commit(&value, &randomness).unwrap();
    let again = copy.commit(&value, &randomness).unwrap();
    assert!(commitment.eq_instance(&again));
    copy.open(&commitment, &value, &randomness).unwrap();
}

#[test]
fn test_serialization_round_trip() {
    let pedersen = PedersenCommitment::<ModPoint>::setup(6, 28);
    let value = Natural::from_u64(496);
    let randomness = Natural::from_u64(8128);
    let commitment = pedersen.commit(&value, &randomness).unwrap();
    let bytes = commitment.to_bytes();
    let restored = SerializableCurvePointProjective::<ModPoint>::from_bytes(&bytes).unwrap();
    assert!(restored.eq_instance(&commitment));
    pedersen.open(&restored, &value, &randomness).unwrap();
}

#[test]
fn test_deserialization_rejects_bad_bytes() {
    let short: Vec<u8> = vec![1, 2, 3];
    assert!(SerializableCurvePointProjective::<ModPoint>::from_bytes(&short).is_none());
    // Eight bytes naming a residue at or above the group order are not the
    // canonical form of any element.
    let high: Vec<u8> = vec![0xff, 0xff, 0xff, 0xff, 0xff, 0xff, 0xff, 0xff];
    assert!(SerializableCurvePointProjective::<ModPoint>::from_bytes(&high).is_none());
}

fn commit_and_check<C: Commitment>(
    scheme: &C,
    value: &Natural,
    randomness: &Natural,
) -> Result<(), CommitmentError> {
    let instance = scheme.commit(value, randomness)?;
    scheme.open(&instance, value, randomness)
}

#[test]
fn test_commit_through_capability_trait() {
    let pedersen = PedersenCommitment::<ModPoint>::setup(5, 10);
    commit_and_check(&pedersen, &Natural::from_u64(2), &Natural::from_u64(5)).unwrap();
}

use replistore::bls::{sig_aggregate, subset_certificate_verifies, verify_aggregate, AggregateIdentity, Keypair};
use replistore::hash::{sha3_256, Sha3Hasher};

fn hex(s: &str) -> Vec<u8> {
    let digits: Vec<u32> = s.chars().map(|c| c.to_digit(16).unwrap()).collect();
    digits.chunks(2).map(|p| (p[0] * 16 + p[1]) as u8).collect()
}

#[test]
fn sha3_known_vector() {
    // SHA3-256("abc"), from the function's published test vectors.
    let expected = hex("3a985da74fe225b2045c172d6bd390bd855f086e3e9d525b46bfe24511431532");
    assert_eq!(sha3_256(&b"abc".to_vec()), expected);
}

#[test]
fn sha3_incremental_matches_one_shot() {
    let mut acc = Sha3Hasher::new();
    acc.absorb(&b"a".to_vec());
    acc.absorb(&Vec::new());
    acc.absorb(&b"bc".to_vec());
    assert_eq!(acc.digest(), sha3_256(&b"abc".to_vec()));
}

#[test]
fn sha3_distinguishes_inputs() {
    assert_ne!(sha3_256(&b"abc".to_vec()), sha3_256(&b"abd".to_vec()));
    assert_eq!(sha3_256(&Vec::new()).len(), 32);
}

#[test]
fn sign_is_deterministic_and_verifies_solo() {
    let kp = Keypair::generate();
    let msg = b"certificate of availability".to_vec();
    let s1 = kp.sign(&msg);
    let s2 = kp.sign(&msg);
    assert_eq!(s1, s2);
    assert_eq!(s1.len(), 48);
    let identity = AggregateIdentity::from_keypair(&kp);
    assert!(verify_aggregate(identity.key_bytes(), &s1, &msg));
    // A different message must not verify.
    assert!(!verify_aggregate(identity.key_bytes(), &s1, &b"another".to_vec()));
}

#[test]
fn aggregate_subset_verifies() {
    let leader = Keypair::generate();
    let members = vec![Keypair::generate(), Keypair::generate(), Keypair::generate()];
    let msg = b"fixed message".to_vec();
    assert!(subset_certificate_verifies(&leader, &members, &msg));
    assert!(subset_certificate_verifies(&leader, &Vec::new(), &msg));
}

#[test]
fn aggregate_fails_when_signer_omitted() {
    // Keys of leader and two members aggregated, but only one member's
    // signature folded in: verification must fail.
    let leader = Keypair::generate();
    let m1 = Keypair::generate();
    let m2 = Keypair::generate();
    let msg = b"fixed message".to_vec();
    let mut identity = AggregateIdentity::from_keypair(&leader);
    assert!(identity.fold_key(m1.public_key()));
    assert!(identity.fold_key(m2.public_key()));
    let partial = sig_aggregate(&leader.sign(&msg), &m1.sign(&msg)).unwrap();
    assert!(!verify_aggregate(identity.key_bytes(), &partial, &msg));
}

#[test]
fn aggregate_fails_when_noncontributor_added() {
    // Both members sign, but a third key joins the aggregate: failure.
    let leader = Keypair::generate();
    let m1 = Keypair::generate();
    let outsider = Keypair::generate();
    let msg = b"fixed message".to_vec();
    let mut identity = AggregateIdentity::from_keypair(&leader);
    assert!(identity.fold_key(m1.public_key()));
    assert!(identity.fold_key(outsider.public_key()));
    let sig = sig_aggregate(&leader.sign(&msg), &m1.sign(&msg)).unwrap();
    assert!(!verify_aggregate(identity.key_bytes(), &sig, &msg));
}

#[test]
fn malformed_key_is_rejected() {
    let kp = Keypair::generate();
    let mut identity = AggregateIdentity::from_keypair(&kp);
    let before = identity.key_bytes().clone();
    // All-0xff bytes are not a valid key encoding.
    assert!(!identity.fold_key(&vec![0xffu8; 96]));
    assert_eq!(identity.key_bytes(), &before);
}

#[test]
fn malformed_signature_is_rejected() {
    let kp = Keypair::generate();
    let good = kp.sign(&b"m".to_vec());
    assert!(sig_aggregate(&good, &vec![0xffu8; 48]).is_none());
    assert!(sig_aggregate(&good, &good).is_some());
}

use adder_collator::identity::{CollatorId, CollatorIdentity, Signature};

const SEED: [u8; 32] = *b"12345678901234567890123456789012";

const PUBLIC: [u8; 32] = [
    0x74, 0x1c, 0x08, 0xa0, 0x6f, 0x41, 0xc5, 0x96, 0x60, 0x8f, 0x67, 0x74, 0x25, 0x9b, 0xd9, 0x04,
    0x33, 0x04, 0xad, 0xfa, 0x5d, 0x3e, 0xea, 0x62, 0x76, 0x0b, 0xd9, 0xbe, 0x97, 0x63, 0x4d, 0x63,
];

fn verifies(signature: [u8; 64], message: &[u8], public: [u8; 32]) -> bool {
    let signature = sp_core::sr25519::Signature::from_raw(signature);
    let public = sp_core::sr25519::Public::from_raw(public);
    <sp_core::sr25519::Pair as sp_core::Pair>::verify(&signature, message, &public)
}

#[test]
fn collator_id_is_the_public_key_of_the_seed() {
    let identity = CollatorIdentity::from_seed(SEED);
    assert_eq!(identity.collator_id().bytes, PUBLIC);
    assert_eq!(identity.collator_key().seed, SEED);
}

#[test]
fn collator_id_depends_on_the_seed_alone() {
    let first = CollatorIdentity::from_seed(SEED);
    let second = CollatorIdentity::from_seed(SEED);
    assert_eq!(first.collator_id(), second.collator_id());
    let other = CollatorIdentity::from_seed(*b"23456789012345678901234567890123");
    assert_ne!(first.collator_id(), other.collator_id());
}

#[test]
fn signature_verifies_under_the_collator_id() {
    let identity = CollatorIdentity::from_seed(SEED);
    let message = b"Something important";
    let signature = identity.sign(message);
    assert!(verifies(signature.bytes, message, identity.collator_id().bytes));
    assert!(!verifies(signature.bytes, b"Something else", identity.collator_id().bytes));
}

#[test]
fn generated_identity_signs_for_its_own_id() {
    let identity = CollatorIdentity::generate();
    let again = CollatorIdentity::from_seed(identity.collator_key().seed);
    assert_eq!(identity.collator_id(), again.collator_id());
    let signature = identity.sign(b"payload");
    assert!(verifies(signature.bytes, b"payload", identity.collator_id().bytes));
}

#[test]
fn generated_identities_differ() {
    let first = CollatorIdentity::generate();
    let second = CollatorIdentity::generate();
    assert_ne!(first.collator_key().seed, second.collator_key().seed);
    assert_ne!(first.collator_id(), second.collator_id());
}

#[test]
fn verify_accepts_what_sign_made() {
    let identity = CollatorIdentity::from_seed(SEED);
    let id = identity.collator_id();
    for message in [&b""[..], &b"a"[..], &b"Something important"[..], &[0u8; 300][..]] {
        let signature = identity.sign(message);
        assert!(id.verify(message, &signature));
        assert!(verifies(signature.bytes, message, id.bytes));
    }
    let first = identity.sign(b"twice");
    let second = identity.sign(b"twice");
    assert!(id.verify(b"twice", &first));
    assert!(id.verify(b"twice", &second));
}

#[test]
fn verify_rejects_another_message_key_or_signature() {
    let identity = CollatorIdentity::from_seed(SEED);
    let id = identity.collator_id();
    let signature = identity.sign(b"payload");
    assert!(id.verify(b"payload", &signature));
    assert!(!id.verify(b"payloae", &signature));
    assert!(!id.verify(b"", &signature));

    let other = CollatorIdentity::from_seed(*b"23456789012345678901234567890123");
    assert!(!other.collator_id().verify(b"payload", &signature));
    assert!(other.collator_id().verify(b"payload", &other.sign(b"payload")));

    let mut tampered = signature;
    tampered.bytes[0] ^= 1;
    assert!(!id.verify(b"payload", &tampered));
}

#[test]
fn verify_rejects_bytes_that_are_no_signature_or_key() {
    let identity = CollatorIdentity::from_seed(SEED);
    let id = identity.collator_id();
    assert!(!id.verify(b"payload", &Signature { bytes: [0; 64] }));
    assert!(!id.verify(b"payload", &Signature { bytes: [0xff; 64] }));
    let signature = identity.sign(b"payload");
    assert!(!CollatorId { bytes: [0xff; 32] }.verify(b"payload", &signature));
    assert!(!CollatorId { bytes: [0; 32] }.verify(b"payload", &signature));
}

#[test]
fn verify_agrees_with_the_key_pair_of_the_seed() {
    let identity = CollatorIdentity::from_seed(SEED);
    let pair = <sp_core::sr25519::Pair as sp_core::Pair>::from_seed(&SEED);
    let made_outside = sp_core::Pair::sign(&pair, b"payload");
    assert!(identity.collator_id().verify(b"payload", &Signature { bytes: made_outside.0 }));
}

use adder_collator::collation::{
    Candidate, CollationBuilder, Lineage, Plan, ProofOfValidity, RelayParent, DEFAULT_DELTA,
};
use adder_collator::genesis::genesis_head;
use adder_collator::identity::{CollatorIdentity, Signature};
use adder_collator::state::{HeadData, MAX_COUNTER};
use adder_collator::transition::{apply, InvalidTransition, MAX_DELTA};

const SEED: [u8; 32] = *b"12345678901234567890123456789012";

fn parent(tag: u8) -> RelayParent {
    RelayParent { bytes: [tag; 32] }
}

fn builder(delta: u32) -> CollationBuilder {
    CollationBuilder::new(CollatorIdentity::from_seed(SEED), delta)
}

fn signature(tag: u8) -> Signature {
    Signature { bytes: [tag; 64] }
}

#[test]
fn proof_of_validity_reproduces_the_head() {
    let head = apply(genesis_head(), 5).unwrap();
    assert_eq!(head, HeadData::new(5, 1).unwrap());
    let proof = ProofOfValidity { prior_head: HeadData::new(0, 0).unwrap(), delta: 5 };
    assert_eq!(proof.execute(), Ok(head));
}

#[test]
fn proof_of_validity_with_a_refused_transition() {
    let proof = ProofOfValidity { prior_head: genesis_head(), delta: MAX_DELTA + 1 };
    assert_eq!(proof.execute(), Err(InvalidTransition));
}

#[test]
fn first_request_builds_on_genesis() {
    let mut builder = builder(DEFAULT_DELTA);
    let candidate = builder.seal(parent(1), signature(9)).unwrap();
    assert_eq!(
        candidate,
        Candidate {
            relay_parent: parent(1),
            head_data: HeadData::new(2, 1).unwrap(),
            proof_of_validity: ProofOfValidity { prior_head: genesis_head(), delta: 2 },
            collator_signature: signature(9),
        }
    );
    assert!(candidate.check_proof());
}

#[test]
fn candidate_with_a_wrong_head_fails_the_check() {
    let mut builder = builder(DEFAULT_DELTA);
    let mut candidate = builder.seal(parent(1), signature(9)).unwrap();
    candidate.head_data = HeadData::new(3, 1).unwrap();
    assert!(!candidate.check_proof());
    candidate.head_data = HeadData::new(2, 1).unwrap();
    candidate.proof_of_validity.delta = MAX_DELTA + 1;
    assert!(!candidate.check_proof());
}

#[test]
fn proposing_does_not_move_the_canonical_head() {
    let mut builder = builder(DEFAULT_DELTA);
    assert_eq!(builder.head_for(&parent(1)), genesis_head());
    let candidate = builder.seal(parent(1), signature(9)).unwrap();
    assert_eq!(builder.head_for(&parent(1)), genesis_head());
    assert_eq!(
        builder.lineage(&parent(1)),
        Lineage { head: genesis_head(), pending: Some(candidate) }
    );
}

#[test]
fn duplicate_request_returns_the_same_candidate() {
    let mut builder = builder(DEFAULT_DELTA);
    let first = builder.seal(parent(1), signature(9)).unwrap();
    let second = builder.seal(parent(1), signature(10)).unwrap();
    assert_eq!(first, second);
    assert_eq!(second.collator_signature, signature(9));
}

#[test]
fn duplicate_create_collation_returns_the_same_candidate() {
    let mut builder = builder(DEFAULT_DELTA);
    let first = builder.create_collation(parent(1), &[]).unwrap();
    let second = builder.create_collation(parent(1), &[1, 2, 3]).unwrap();
    assert_eq!(first.head_data, second.head_data);
    assert_eq!(first.proof_of_validity, second.proof_of_validity);
    assert_eq!(first, second);
}

#[test]
fn create_collation_signs_the_encoded_head() {
    let identity = CollatorIdentity::from_seed(SEED);
    let id = identity.collator_id();
    let mut builder = CollationBuilder::new(identity, 5);
    let candidate = builder.create_collation(parent(1), &[]).unwrap();
    assert_eq!(candidate.relay_parent, parent(1));
    assert_eq!(candidate.head_data, HeadData::new(5, 1).unwrap());
    assert_eq!(candidate.proof_of_validity, ProofOfValidity { prior_head: genesis_head(), delta: 5 });
    assert_eq!(builder.collator_id(), id);
    let signature = sp_core::sr25519::Signature::from_raw(candidate.collator_signature.bytes);
    let public = sp_core::sr25519::Public::from_raw(id.bytes);
    assert!(<sp_core::sr25519::Pair as sp_core::Pair>::verify(
        &signature,
        candidate.head_data.encode(),
        &public
    ));
    assert!(id.verify(&candidate.head_data.encode(), &candidate.collator_signature));
    assert!(!id.verify(&genesis_head().encode(), &candidate.collator_signature));
}

#[test]
fn every_fresh_candidate_is_signed_by_the_collator() {
    let mut builder = builder(DEFAULT_DELTA);
    let id = builder.collator_id();
    for tag in [1u8, 2, 3] {
        let first = builder.create_collation(parent(tag), &[]).unwrap();
        assert!(id.verify(&first.head_data.encode(), &first.collator_signature));
        builder.advance(parent(tag));
        let second = builder.create_collation(parent(tag), &[]).unwrap();
        assert!(id.verify(&second.head_data.encode(), &second.collator_signature));
        assert!(!id.verify(&first.head_data.encode(), &second.collator_signature));
    }
}

#[test]
fn forks_are_tracked_independently() {
    let mut builder = builder(DEFAULT_DELTA);
    let a1 = builder.seal(parent(1), signature(1)).unwrap();
    assert_eq!(builder.advance(parent(1)), Some(a1.head_data));
    let a2 = builder.seal(parent(1), signature(2)).unwrap();
    assert_eq!(a2.proof_of_validity.prior_head, a1.head_data);
    assert_eq!(a2.head_data, HeadData::new(4, 2).unwrap());

    assert_eq!(builder.head_for(&parent(2)), genesis_head());
    let b1 = builder.seal(parent(2), signature(3)).unwrap();
    assert_eq!(b1.proof_of_validity.prior_head, genesis_head());
    assert_eq!(b1.head_data, HeadData::new(2, 1).unwrap());
    assert_eq!(b1.relay_parent, parent(2));

    assert_eq!(builder.lineage(&parent(1)), Lineage { head: a1.head_data, pending: Some(a2) });
    assert_eq!(builder.advance(parent(2)), Some(b1.head_data));
    assert_eq!(builder.lineage(&parent(1)), Lineage { head: a1.head_data, pending: Some(a2) });
}

#[test]
fn requests_for_two_forks_commute() {
    let mut one = builder(DEFAULT_DELTA);
    let a_first = one.seal(parent(1), signature(1));
    let b_second = one.seal(parent(2), signature(2));
    let mut other = builder(DEFAULT_DELTA);
    let b_first = other.seal(parent(2), signature(2));
    let a_second = other.seal(parent(1), signature(1));
    assert_eq!(a_first, a_second);
    assert_eq!(b_first, b_second);
    assert_eq!(one.lineage(&parent(1)), other.lineage(&parent(1)));
    assert_eq!(one.lineage(&parent(2)), other.lineage(&parent(2)));
}

#[test]
fn relay_parents_that_differ_in_one_byte_are_different() {
    let mut last = [7u8; 32];
    last[31] = 8;
    let near = RelayParent { bytes: last };
    assert!(!parent(7).same(&near));
    assert!(parent(7).same(&parent(7)));
    let mut builder = builder(DEFAULT_DELTA);
    let first = builder.seal(parent(7), signature(1)).unwrap();
    builder.advance(parent(7));
    let second = builder.seal(near, signature(1)).unwrap();
    assert_eq!(first.head_data, second.head_data);
    assert_eq!(second.relay_parent, near);
}

#[test]
fn advance_without_a_pending_candidate_changes_nothing() {
    let mut builder = builder(DEFAULT_DELTA);
    assert_eq!(builder.advance(parent(1)), None);
    assert_eq!(builder.lineage(&parent(1)), Lineage { head: genesis_head(), pending: None });
    builder.seal(parent(1), signature(1)).unwrap();
    assert!(builder.advance(parent(1)).is_some());
    assert_eq!(builder.advance(parent(1)), None);
    assert_eq!(builder.head_for(&parent(1)), HeadData::new(2, 1).unwrap());
}

#[test]
fn refused_transition_yields_no_candidate() {
    let mut builder = builder(MAX_DELTA + 1);
    assert_eq!(builder.plan(&parent(1)), Plan::Unavailable);
    assert_eq!(builder.create_collation(parent(1), &[]), None);
    assert_eq!(builder.seal(parent(1), signature(1)), None);
    assert_eq!(builder.lineage(&parent(1)), Lineage { head: genesis_head(), pending: None });
}

#[test]
fn plan_follows_the_state_of_the_relay_parent() {
    let mut builder = builder(3);
    assert_eq!(builder.delta(), 3);
    assert_eq!(
        builder.plan(&parent(1)),
        Plan::Build { prior: genesis_head(), head: HeadData::new(3, 1).unwrap() }
    );
    let candidate = builder.seal(parent(1), signature(1)).unwrap();
    assert_eq!(builder.plan(&parent(1)), Plan::Reuse(candidate));
    builder.advance(parent(1));
    assert_eq!(
        builder.plan(&parent(1)),
        Plan::Build { prior: HeadData::new(3, 1).unwrap(), head: HeadData::new(6, 2).unwrap() }
    );
}

#[test]
fn chain_of_blocks_stays_below_the_counter_limit() {
    let mut builder = builder(MAX_DELTA);
    let mut blocks: u64 = 0;
    while blocks < 50 {
        let candidate = builder.create_collation(parent(1), &[]).unwrap();
        assert!(candidate.check_proof());
        assert!(candidate.head_data.counter.value() <= MAX_COUNTER);
        assert_eq!(builder.advance(parent(1)), Some(candidate.head_data));
        blocks += 1;
        assert_eq!(candidate.head_data, HeadData::new(1_000 * blocks, blocks).unwrap());
    }
}

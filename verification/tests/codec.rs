use adder_collator::collation::ProofOfValidity;
use adder_collator::genesis::genesis_head;
use adder_collator::state::{HeadData, MAX_COUNTER};

#[test]
fn genesis_encodes_to_sixteen_zero_bytes() {
    assert_eq!(genesis_head().encode(), vec![0u8; 16]);
}

#[test]
fn encode_writes_the_least_significant_byte_first() {
    let head = HeadData::new(0x0102, 0x0a0b0c0d).unwrap();
    assert_eq!(
        head.encode(),
        vec![0x02, 0x01, 0, 0, 0, 0, 0, 0, 0x0d, 0x0c, 0x0b, 0x0a, 0, 0, 0, 0]
    );
}

#[test]
fn encode_of_the_largest_head() {
    let head = HeadData::new(MAX_COUNTER, u64::MAX).unwrap();
    // 1_000_000_000_000 is 0xE8_D4A5_1000.
    assert_eq!(
        head.encode(),
        vec![0x00, 0x10, 0xa5, 0xd4, 0xe8, 0, 0, 0, 0xff, 0xff, 0xff, 0xff, 0xff, 0xff, 0xff, 0xff]
    );
}

#[test]
fn decode_reads_back_what_encode_wrote() {
    for (counter, block_number) in [(0, 0), (5, 1), (MAX_COUNTER, u64::MAX), (77, 1 << 40)] {
        let head = HeadData::new(counter, block_number).unwrap();
        assert_eq!(HeadData::decode(&head.encode()), Some(head));
    }
}

#[test]
fn decode_gives_the_fields() {
    let bytes = [5, 0, 0, 0, 0, 0, 0, 0, 1, 0, 0, 0, 0, 0, 0, 0];
    let head = HeadData::decode(&bytes).unwrap();
    assert_eq!(head.counter.value(), 5);
    assert_eq!(head.block_number, 1);
    assert_eq!(head.encode(), bytes.to_vec());
}

#[test]
fn decode_rejects_a_wrong_length() {
    assert_eq!(HeadData::decode(&[]), None);
    assert_eq!(HeadData::decode(&[0u8; 15]), None);
    assert_eq!(HeadData::decode(&[0u8; 17]), None);
}

#[test]
fn decode_rejects_a_counter_out_of_range() {
    // 1_000_000_000_001 in the counter.
    let bytes = [0x01, 0x10, 0xa5, 0xd4, 0xe8, 0, 0, 0, 0, 0, 0, 0, 0, 0, 0, 0];
    assert_eq!(HeadData::decode(&bytes), None);
    assert_eq!(HeadData::decode(&[0xff; 16]), None);
}

#[test]
fn proof_encodes_to_the_head_and_the_delta() {
    let proof = ProofOfValidity { prior_head: HeadData::new(5, 1).unwrap(), delta: 0x0102_0304 };
    assert_eq!(
        proof.encode(),
        vec![5, 0, 0, 0, 0, 0, 0, 0, 1, 0, 0, 0, 0, 0, 0, 0, 0x04, 0x03, 0x02, 0x01]
    );
}

#[test]
fn proof_decodes_to_what_was_encoded() {
    for delta in [0, 2, 1_000, 1_001, u32::MAX] {
        let proof = ProofOfValidity { prior_head: HeadData::new(77, 9).unwrap(), delta };
        assert_eq!(ProofOfValidity::decode(&proof.encode()), Some(proof));
    }
    let genesis = ProofOfValidity { prior_head: genesis_head(), delta: 5 };
    assert_eq!(ProofOfValidity::decode(&genesis.encode()).unwrap().execute(), genesis.execute());
}

#[test]
fn proof_decode_rejects_malformed_bytes() {
    assert_eq!(ProofOfValidity::decode(&[0u8; 19]), None);
    assert_eq!(ProofOfValidity::decode(&[0u8; 21]), None);
    assert_eq!(ProofOfValidity::decode(&[0u8; 16]), None);
    assert_eq!(ProofOfValidity::decode(&[0xff; 20]), None);
    assert_eq!(
        ProofOfValidity::decode(&[0u8; 20]),
        Some(ProofOfValidity { prior_head: genesis_head(), delta: 0 })
    );
}

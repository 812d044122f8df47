use adder_collator::genesis::genesis_head;
use adder_collator::state::{HeadData, ParachainState, MAX_COUNTER};
use adder_collator::transition::{apply, InvalidTransition, MAX_DELTA};

#[test]
fn apply_adds_delta_and_counts_the_block() {
    let next = apply(genesis_head(), 5).unwrap();
    assert_eq!(next.counter.value(), 5);
    assert_eq!(next.block_number, 1);
    assert_eq!(next, HeadData::new(5, 1).unwrap());
}

#[test]
fn apply_is_deterministic() {
    let head = HeadData::new(41, 7).unwrap();
    assert_eq!(apply(head, 3), apply(head, 3));
    assert_eq!(apply(head, 3), Ok(HeadData::new(44, 8).unwrap()));
}

#[test]
fn apply_accepts_delta_zero() {
    let head = HeadData::new(9, 2).unwrap();
    assert_eq!(apply(head, 0), Ok(HeadData::new(9, 3).unwrap()));
}

#[test]
fn apply_rejects_delta_above_the_limit() {
    let genesis = genesis_head();
    assert_eq!(apply(genesis, MAX_DELTA + 1), Err(InvalidTransition));
    assert_eq!(apply(genesis, u32::MAX), Err(InvalidTransition));
    assert_eq!(apply(genesis, MAX_DELTA), Ok(HeadData::new(1_000, 1).unwrap()));
}

#[test]
fn apply_rejects_counter_above_the_limit() {
    let head = HeadData::new(MAX_COUNTER - 4, 9).unwrap();
    assert_eq!(apply(head, 5), Err(InvalidTransition));
    assert_eq!(apply(head, 4), Ok(HeadData::new(MAX_COUNTER, 10).unwrap()));
    let full = HeadData::new(MAX_COUNTER, 10).unwrap();
    assert_eq!(apply(full, 1), Err(InvalidTransition));
    assert_eq!(apply(full, 0), Ok(HeadData::new(MAX_COUNTER, 11).unwrap()));
}

#[test]
fn apply_rejects_a_block_number_without_successor() {
    let head = HeadData::new(0, u64::MAX).unwrap();
    assert_eq!(apply(head, 0), Err(InvalidTransition));
    let before = HeadData::new(0, u64::MAX - 1).unwrap();
    assert_eq!(apply(before, 1), Ok(HeadData::new(1, u64::MAX).unwrap()));
}

#[test]
fn state_is_bounded() {
    assert_eq!(ParachainState::zero().value(), 0);
    assert_eq!(ParachainState::new(MAX_COUNTER).unwrap().value(), MAX_COUNTER);
    assert!(ParachainState::new(MAX_COUNTER + 1).is_none());
    assert!(HeadData::new(MAX_COUNTER + 1, 0).is_none());
    let state = ParachainState::new(10).unwrap();
    assert_eq!(state.checked_add(5).unwrap().value(), 15);
    assert!(ParachainState::new(MAX_COUNTER).unwrap().checked_add(1).is_none());
}

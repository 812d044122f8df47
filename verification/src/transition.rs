//! The state-transition function: the rule by which one block follows another.

use vstd::prelude::*;
use crate::state::{HeadData, HeadView, MAX_COUNTER};

verus! {

/// Largest increment one block may add to the counter.
pub const MAX_DELTA: u32 = 1_000;

/// The transition was refused: the increment is out of range, or the block
/// would not fit the head data. No candidate can be built from it now.
#[derive(Clone, Copy, Debug, PartialEq, Eq, Structural)]
pub struct InvalidTransition;

/// Whether a block that adds `delta` may follow `prior`.
///
/// The increment must not exceed [`MAX_DELTA`], the new counter must not exceed
/// [`MAX_COUNTER`], and the new block number must fit in 64 bits.
pub open spec fn transition_allowed(prior: HeadView, delta: nat) -> bool {
    &&& delta <= MAX_DELTA
    &&& prior.counter + delta <= MAX_COUNTER
    &&& prior.block_number < u64::MAX
}

/// The head after a block that adds `delta` to the counter of `prior`.
pub open spec fn successor(prior: HeadView, delta: nat) -> HeadView {
    HeadView { counter: prior.counter + delta, block_number: prior.block_number + 1 }
}

/// The transition function: the successor of `prior` where the transition is
/// allowed, and a refusal everywhere else.
pub open spec fn apply_spec(prior: HeadView, delta: nat) -> Result<HeadView, InvalidTransition> {
    if transition_allowed(prior, delta) {
        Ok(successor(prior, delta))
    } else {
        Err(InvalidTransition)
    }
}

/// The mathematical content of what [`apply`] returns.
pub open spec fn outcome_view(outcome: Result<HeadData, InvalidTransition>) -> Result<
    HeadView,
    InvalidTransition,
> {
    match outcome {
        Ok(head) => Ok(head@),
        Err(refusal) => Err(refusal),
    }
}

/// Executes one block on top of `prior`.
///
/// The result depends on the two arguments alone. An allowed transition adds
/// `delta` to the counter and one to the block number. Any other is refused:
/// in particular every `delta` above [`MAX_DELTA`] and every sum above
/// [`MAX_COUNTER`].
pub fn apply(prior: HeadData, delta: u32) -> (outcome: Result<HeadData, InvalidTransition>)
    ensures
        outcome_view(outcome) == apply_spec(prior@, delta as nat),
        delta <= MAX_DELTA && prior@.counter + delta <= MAX_COUNTER && prior@.block_number
            < u64::MAX ==> (outcome matches Ok(next) && next@.counter == prior@.counter + delta
            && next@.block_number == prior@.block_number + 1),
        delta > MAX_DELTA || prior@.counter + delta > MAX_COUNTER ==> outcome is Err,
{
    if delta > MAX_DELTA || prior.block_number == u64::MAX {
        return Err(InvalidTransition);
    }
    match prior.counter.checked_add(delta) {
        Some(counter) => Ok(HeadData { counter, block_number: prior.block_number + 1 }),
        None => Err(InvalidTransition),
    }
}

/// The state invariant survives every block: from a head whose counter is in
/// range, an allowed transition leads to a head whose counter is in range,
/// and the block number grows by exactly one.
pub proof fn lemma_apply_preserves_bound(prior: HeadView, delta: nat)
    requires
        apply_spec(prior, delta) is Ok,
    ensures
        apply_spec(prior, delta).unwrap().counter <= MAX_COUNTER,
        apply_spec(prior, delta).unwrap().counter >= prior.counter,
        apply_spec(prior, delta).unwrap().block_number == prior.block_number + 1,
        apply_spec(prior, delta).unwrap().block_number <= u64::MAX,
{
}

} // verus!

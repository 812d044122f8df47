//! The parachain state and the head data that snapshots it.

use vstd::prelude::*;

verus! {

/// Largest value the parachain counter may reach.
pub const MAX_COUNTER: u64 = 1_000_000_000_000;

/// The parachain state: a counter that never exceeds [`MAX_COUNTER`].
///
/// A value is immutable. Advancing the counter yields a new value. The view
/// of a state is its counter.
#[derive(Clone, Copy, Debug, PartialEq, Eq, Structural)]
pub struct ParachainState {
    value: u64,
}

impl View for ParachainState {
    type V = nat;

    closed spec fn view(&self) -> nat {
        self.value as nat
    }
}

impl ParachainState {
    #[verifier::type_invariant]
    spec fn bounded(self) -> bool {
        self.value <= MAX_COUNTER
    }

    /// The state with counter zero.
    pub fn zero() -> (state: ParachainState)
        ensures
            state@ == 0,
    {
        ParachainState { value: 0 }
    }

    /// The state with the given counter. There is one exactly when the
    /// counter is in range.
    pub fn new(value: u64) -> (state: Option<ParachainState>)
        ensures
            state is Some <==> value <= MAX_COUNTER,
            state matches Some(s) ==> s@ == value,
    {
        if value <= MAX_COUNTER {
            Some(ParachainState { value })
        } else {
            None
        }
    }

    /// The counter.
    pub fn value(&self) -> (value: u64)
        ensures
            value == self@,
            value <= MAX_COUNTER,
    {
        proof {
            use_type_invariant(self);
        }
        self.value
    }

    /// The state after adding `delta`. There is one exactly when the sum is
    /// in range.
    pub fn checked_add(&self, delta: u32) -> (state: Option<ParachainState>)
        ensures
            state is Some <==> self@ + delta <= MAX_COUNTER,
            state matches Some(s) ==> s@ == self@ + delta,
    {
        proof {
            use_type_invariant(self);
        }
        let sum: u64 = self.value + delta as u64;
        if sum <= MAX_COUNTER {
            Some(ParachainState { value: sum })
        } else {
            None
        }
    }

    /// Two states with the same counter are the same state.
    pub proof fn lemma_view_injective(a: ParachainState, b: ParachainState)
        ensures
            a@ == b@ <==> a == b,
    {
    }
}

/// The mathematical content of a head: its counter and its block number.
pub ghost struct HeadView {
    pub counter: nat,
    pub block_number: nat,
}

/// A snapshot of the parachain after one block: the state and the number of
/// the block that produced it.
#[derive(Clone, Copy, Debug, PartialEq, Eq, Structural)]
pub struct HeadData {
    pub counter: ParachainState,
    pub block_number: u64,
}

impl View for HeadData {
    type V = HeadView;

    open spec fn view(&self) -> HeadView {
        HeadView { counter: self.counter@, block_number: self.block_number as nat }
    }
}

impl HeadData {
    /// The head with the given counter and block number. There is one
    /// exactly when the counter is in range.
    pub fn new(counter: u64, block_number: u64) -> (head: Option<HeadData>)
        ensures
            head is Some <==> counter <= MAX_COUNTER,
            head matches Some(h) ==> h@ == (HeadView {
                counter: counter as nat,
                block_number: block_number as nat,
            }),
    {
        match ParachainState::new(counter) {
            Some(state) => Some(HeadData { counter: state, block_number }),
            None => None,
        }
    }

    /// Two heads with the same counter and block number are the same head.
    pub proof fn lemma_view_injective(a: HeadData, b: HeadData)
        ensures
            a@ == b@ <==> a == b,
    {
        ParachainState::lemma_view_injective(a.counter, b.counter);
    }
}

} // verus!

//! What holds of the collation builder across several requests.
//!
//! Every statement is over the model of the builder: the map from relay
//! parents to records, and the functions `collate_spec` and `advance_spec`
//! that the builder's methods are proved to follow.

use vstd::prelude::*;
use crate::collation::{
    advance_spec, collate_spec, lemma_sound_after_insert, lineage_of, lineage_sound, plan_spec,
    state_sound, LineageView, PlanView,
};
use crate::state::{HeadView, MAX_COUNTER};
use crate::transition::{apply_spec, lemma_apply_preserves_bound, InvalidTransition};

verus! {

/// Duplicate requests: a second request for the same relay parent, with no
/// advance in between, is answered with the candidate of the first and
/// changes nothing, whatever signature the collator would make this time. If
/// the first request had no candidate, neither has the second.
pub proof fn lemma_duplicate_request(
    state: Map<Seq<u8>, LineageView>,
    relay_parent: Seq<u8>,
    delta: nat,
    first_signature: Seq<u8>,
    second_signature: Seq<u8>,
)
    ensures
        ({
            let (after_first, first) = collate_spec(state, relay_parent, delta, first_signature);
            let (after_second, second) = collate_spec(
                after_first,
                relay_parent,
                delta,
                second_signature,
            );
            &&& second == first
            &&& after_second == after_first
        }),
{
    let (after_first, first) = collate_spec(state, relay_parent, delta, first_signature);
    if first is Some && plan_spec(state, relay_parent, delta) is Build {
        assert(after_first.dom().contains(relay_parent));
    }
}

/// Fork isolation: a request for one relay parent leaves the record of every
/// other relay parent as it was.
pub proof fn lemma_collate_leaves_others(
    state: Map<Seq<u8>, LineageView>,
    relay_parent: Seq<u8>,
    other: Seq<u8>,
    delta: nat,
    signature: Seq<u8>,
)
    requires
        other != relay_parent,
    ensures
        lineage_of(collate_spec(state, relay_parent, delta, signature).0, other) == lineage_of(
            state,
            other,
        ),
        collate_spec(state, relay_parent, delta, signature).0.dom().contains(other)
            == state.dom().contains(other),
{
}

/// Fork isolation: accepting the candidate of one relay parent leaves the
/// record of every other relay parent as it was.
pub proof fn lemma_advance_leaves_others(
    state: Map<Seq<u8>, LineageView>,
    relay_parent: Seq<u8>,
    other: Seq<u8>,
)
    requires
        other != relay_parent,
    ensures
        lineage_of(advance_spec(state, relay_parent).0, other) == lineage_of(state, other),
        advance_spec(state, relay_parent).0.dom().contains(other) == state.dom().contains(other),
{
}

/// Fork isolation: the answer to a request depends on the record of its own
/// relay parent alone. Two states that agree on that record give the same
/// candidate and the same new record.
pub proof fn lemma_collate_reads_own_record(
    state: Map<Seq<u8>, LineageView>,
    other_state: Map<Seq<u8>, LineageView>,
    relay_parent: Seq<u8>,
    delta: nat,
    signature: Seq<u8>,
)
    requires
        lineage_of(state, relay_parent) == lineage_of(other_state, relay_parent),
    ensures
        collate_spec(state, relay_parent, delta, signature).1 == collate_spec(
            other_state,
            relay_parent,
            delta,
            signature,
        ).1,
        lineage_of(collate_spec(state, relay_parent, delta, signature).0, relay_parent)
            == lineage_of(
            collate_spec(other_state, relay_parent, delta, signature).0,
            relay_parent,
        ),
{
}

/// Fork isolation: requests for two different relay parents do not see each
/// other. Served in either order they hand out the same two candidates and
/// leave the same state.
pub proof fn lemma_fork_isolation(
    state: Map<Seq<u8>, LineageView>,
    a: Seq<u8>,
    b: Seq<u8>,
    delta: nat,
    signature_a: Seq<u8>,
    signature_b: Seq<u8>,
)
    requires
        a != b,
    ensures
        ({
            let (after_a, candidate_a) = collate_spec(state, a, delta, signature_a);
            let (after_ab, candidate_b_second) = collate_spec(after_a, b, delta, signature_b);
            let (after_b, candidate_b) = collate_spec(state, b, delta, signature_b);
            let (after_ba, candidate_a_second) = collate_spec(after_b, a, delta, signature_a);
            &&& candidate_a_second == candidate_a
            &&& candidate_b_second == candidate_b
            &&& after_ab == after_ba
        }),
{
    let (after_a, candidate_a) = collate_spec(state, a, delta, signature_a);
    let (after_ab, candidate_b_second) = collate_spec(after_a, b, delta, signature_b);
    let (after_b, candidate_b) = collate_spec(state, b, delta, signature_b);
    let (after_ba, candidate_a_second) = collate_spec(after_b, a, delta, signature_a);
    lemma_collate_leaves_others(state, a, b, delta, signature_a);
    lemma_collate_leaves_others(state, b, a, delta, signature_b);
    lemma_collate_reads_own_record(state, after_a, b, delta, signature_b);
    lemma_collate_reads_own_record(state, after_b, a, delta, signature_a);
    assert(after_ab =~= after_ba);
}

/// A candidate that a request hands out names the relay parent of the
/// request, is built on the head that was canonical for that relay parent
/// when the request was made, and carries a proof from which its head can be
/// recomputed. The state stays sound.
pub proof fn lemma_collate_sound(
    state: Map<Seq<u8>, LineageView>,
    relay_parent: Seq<u8>,
    delta: nat,
    signature: Seq<u8>,
)
    requires
        state_sound(state, delta),
    ensures
        state_sound(collate_spec(state, relay_parent, delta, signature).0, delta),
        collate_spec(state, relay_parent, delta, signature).1 matches Some(candidate) ==> {
            &&& candidate.relay_parent == relay_parent
            &&& candidate.proof_of_validity.prior_head == lineage_of(state, relay_parent).head
            &&& candidate.proof_of_validity.delta == delta
            &&& candidate.proof_sufficient()
            &&& lineage_of(
                collate_spec(state, relay_parent, delta, signature).0,
                relay_parent,
            ).pending == Some(candidate)
            &&& lineage_of(collate_spec(state, relay_parent, delta, signature).0, relay_parent).head
                == lineage_of(state, relay_parent).head
        },
{
    let lineage = lineage_of(state, relay_parent);
    match plan_spec(state, relay_parent, delta) {
        PlanView::Reuse(candidate) => {
            assert(state.dom().contains(relay_parent));
            assert(lineage_sound(relay_parent, state[relay_parent], delta));
        },
        PlanView::Unavailable => {},
        PlanView::Build { prior, head } => {
            let (after, handed) = collate_spec(state, relay_parent, delta, signature);
            lemma_sound_after_insert(state, relay_parent, after[relay_parent], delta);
        },
    }
}

/// Accepting a candidate keeps the state sound. The head that becomes
/// canonical is the head of the candidate that was pending, which follows
/// the former canonical head by one block.
pub proof fn lemma_advance_sound(
    state: Map<Seq<u8>, LineageView>,
    relay_parent: Seq<u8>,
    delta: nat,
)
    requires
        state_sound(state, delta),
    ensures
        state_sound(advance_spec(state, relay_parent).0, delta),
        advance_spec(state, relay_parent).1 matches Some(head) ==> {
            &&& apply_spec(lineage_of(state, relay_parent).head, delta) == Ok::<
                HeadView,
                InvalidTransition,
            >(head)
            &&& lineage_of(advance_spec(state, relay_parent).0, relay_parent) == (LineageView {
                head,
                pending: None,
            })
            &&& head.block_number == lineage_of(state, relay_parent).head.block_number + 1
            &&& head.counter == lineage_of(state, relay_parent).head.counter + delta
            &&& head.counter <= MAX_COUNTER
        },
{
    if lineage_of(state, relay_parent).pending is Some {
        let candidate = lineage_of(state, relay_parent).pending.unwrap();
        assert(state.dom().contains(relay_parent));
        assert(lineage_sound(relay_parent, state[relay_parent], delta));
        let after = advance_spec(state, relay_parent).0;
        lemma_sound_after_insert(state, relay_parent, after[relay_parent], delta);
        lemma_apply_preserves_bound(lineage_of(state, relay_parent).head, delta);
    }
}

/// After a candidate is accepted, the next request for the relay parent
/// builds on the head of that candidate.
pub proof fn lemma_request_after_advance(
    state: Map<Seq<u8>, LineageView>,
    relay_parent: Seq<u8>,
    delta: nat,
    signature: Seq<u8>,
)
    requires
        advance_spec(state, relay_parent).1 is Some,
    ensures
        collate_spec(advance_spec(state, relay_parent).0, relay_parent, delta, signature).1
            matches Some(candidate) ==> candidate.proof_of_validity.prior_head == advance_spec(
            state,
            relay_parent,
        ).1.unwrap(),
{
    let after = advance_spec(state, relay_parent).0;
    assert(after.dom().contains(relay_parent));
}

} // verus!

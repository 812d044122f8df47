//! Building collations: one candidate per relay parent and state advance.
//!
//! The builder keeps, for every relay parent it has seen, the head that is
//! canonical under that relay parent and the candidate it has proposed on top
//! of that head, if any. A relay parent that it has not seen starts from the
//! genesis head.
//!
//! A proposed candidate does not move the canonical head. The head moves only
//! when [`CollationBuilder::advance`] is called for the relay parent, which is
//! the caller's way of saying that the relay chain accepted the candidate.
//! Until then every request for the relay parent is answered with the same
//! candidate.

use vstd::prelude::*;
use crate::collation_lemmas::{lemma_advance_sound, lemma_collate_sound};
use crate::genesis::{genesis_head, genesis_head_spec};
use crate::codec::encode_spec;
use crate::identity::{sr25519_verifies, CollatorId, CollatorIdentity, Signature};
use crate::state::{HeadData, HeadView};
use crate::transition::{apply, apply_spec, outcome_view, InvalidTransition};

verus! {

/// Number of bytes in a relay-chain block hash.
pub const HASH_LEN: usize = 32;

/// The increment that the adder collator proposes in every block.
pub const DEFAULT_DELTA: u32 = 2;

/// The relay-chain block on top of which a collation is requested, named by
/// its hash. Two relay parents may stand for competing forks. The view of a
/// relay parent is the bytes of the hash.
#[derive(Clone, Copy, Debug, PartialEq, Eq)]
pub struct RelayParent {
    pub bytes: [u8; 32],
}

impl View for RelayParent {
    type V = Seq<u8>;

    open spec fn view(&self) -> Seq<u8> {
        self.bytes@
    }
}

impl RelayParent {
    /// Whether the two name the same relay-chain block.
    pub fn same(&self, other: &RelayParent) -> (equal: bool)
        ensures
            equal == (self@ == other@),
            equal == (*self == *other),
    {
        let mut i: usize = 0;
        while i < HASH_LEN
            invariant
                i <= HASH_LEN,
                forall|k: int| 0 <= k < i ==> self.bytes[k] == other.bytes[k],
            decreases HASH_LEN - i,
        {
            if self.bytes[i] != other.bytes[i] {
                assert(self@[i as int] != other@[i as int]);
                return false;
            }
            i += 1;
        }
        assert(self.bytes =~= other.bytes);
        true
    }
}

/// The mathematical content of a proof of validity.
pub ghost struct ProofView {
    pub prior_head: HeadView,
    pub delta: nat,
}

/// What a validator needs to recompute a head without trusting the collator:
/// the head before the block and the increment of the block.
#[derive(Clone, Copy, Debug, PartialEq, Eq)]
pub struct ProofOfValidity {
    pub prior_head: HeadData,
    pub delta: u32,
}

impl View for ProofOfValidity {
    type V = ProofView;

    open spec fn view(&self) -> ProofView {
        ProofView { prior_head: self.prior_head@, delta: self.delta as nat }
    }
}

impl ProofOfValidity {
    /// Executes the block again from the proof alone.
    pub fn execute(&self) -> (outcome: Result<HeadData, InvalidTransition>)
        ensures
            outcome_view(outcome) == apply_spec(self@.prior_head, self@.delta),
    {
        apply(self.prior_head, self.delta)
    }
}

/// The mathematical content of a candidate.
pub ghost struct CandidateView {
    pub relay_parent: Seq<u8>,
    pub head_data: HeadView,
    pub proof_of_validity: ProofView,
    pub collator_signature: Seq<u8>,
}

impl CandidateView {
    /// Whether executing the proof of validity yields the head of the
    /// candidate.
    pub open spec fn proof_sufficient(self) -> bool {
        apply_spec(self.proof_of_validity.prior_head, self.proof_of_validity.delta) == Ok::<
            HeadView,
            InvalidTransition,
        >(self.head_data)
    }
}

/// A proposed parachain block with its proof, signed by the collator.
#[derive(Clone, Copy, Debug, PartialEq, Eq)]
pub struct Candidate {
    pub relay_parent: RelayParent,
    pub head_data: HeadData,
    pub proof_of_validity: ProofOfValidity,
    pub collator_signature: Signature,
}

impl View for Candidate {
    type V = CandidateView;

    open spec fn view(&self) -> CandidateView {
        CandidateView {
            relay_parent: self.relay_parent@,
            head_data: self.head_data@,
            proof_of_validity: self.proof_of_validity@,
            collator_signature: self.collator_signature@,
        }
    }
}

impl Candidate {
    /// Executes the proof of validity and compares the result with the head
    /// of the candidate.
    pub fn check_proof(&self) -> (sufficient: bool)
        ensures
            sufficient == self@.proof_sufficient(),
    {
        match self.proof_of_validity.execute() {
            Ok(head) => {
                proof {
                    HeadData::lemma_view_injective(head, self.head_data);
                }
                head == self.head_data
            },
            Err(_) => false,
        }
    }
}

/// The mathematical content of a candidate that may be absent.
pub open spec fn candidate_view(candidate: Option<Candidate>) -> Option<CandidateView> {
    match candidate {
        Some(c) => Some(c@),
        None => None,
    }
}

/// The mathematical content of a head that may be absent.
pub open spec fn head_view(head: Option<HeadData>) -> Option<HeadView> {
    match head {
        Some(h) => Some(h@),
        None => None,
    }
}

/// The mathematical content of a record.
pub ghost struct LineageView {
    pub head: HeadView,
    pub pending: Option<CandidateView>,
}

/// What the builder records for one relay parent.
#[derive(Clone, Copy, Debug, PartialEq, Eq)]
pub struct Lineage {
    /// The head that is canonical under the relay parent.
    pub head: HeadData,
    /// The candidate proposed on top of `head` and not yet accepted.
    pub pending: Option<Candidate>,
}

impl View for Lineage {
    type V = LineageView;

    open spec fn view(&self) -> LineageView {
        LineageView { head: self.head@, pending: candidate_view(self.pending) }
    }
}

/// The mathematical content of a plan.
pub ghost enum PlanView {
    Reuse(CandidateView),
    Build { prior: HeadView, head: HeadView },
    Unavailable,
}

/// What a request for a collation leads to.
#[derive(Clone, Copy, Debug, PartialEq, Eq)]
pub enum Plan {
    /// A candidate was proposed before and is handed out again.
    Reuse(Candidate),
    /// A block can be built: `head` follows `prior`.
    Build { prior: HeadData, head: HeadData },
    /// The transition is refused, so there is no collation now.
    Unavailable,
}

impl View for Plan {
    type V = PlanView;

    open spec fn view(&self) -> PlanView {
        match *self {
            Plan::Reuse(candidate) => PlanView::Reuse(candidate@),
            Plan::Build { prior, head } => PlanView::Build { prior: prior@, head: head@ },
            Plan::Unavailable => PlanView::Unavailable,
        }
    }
}

/// The record of a relay parent: what the state holds for it, or the genesis
/// head with nothing pending if the state does not hold it.
pub open spec fn lineage_of(
    state: Map<Seq<u8>, LineageView>,
    relay_parent: Seq<u8>,
) -> LineageView {
    if state.dom().contains(relay_parent) {
        state[relay_parent]
    } else {
        LineageView { head: genesis_head_spec(), pending: None }
    }
}

/// What a request for `relay_parent` leads to in `state`.
pub open spec fn plan_spec(
    state: Map<Seq<u8>, LineageView>,
    relay_parent: Seq<u8>,
    delta: nat,
) -> PlanView {
    let lineage = lineage_of(state, relay_parent);
    match lineage.pending {
        Some(candidate) => PlanView::Reuse(candidate),
        None => match apply_spec(lineage.head, delta) {
            Ok(head) => PlanView::Build { prior: lineage.head, head },
            Err(_) => PlanView::Unavailable,
        },
    }
}

/// The state after a request for `relay_parent`, and the candidate handed
/// out, given the signature that the collator makes if a block is built.
pub open spec fn collate_spec(
    state: Map<Seq<u8>, LineageView>,
    relay_parent: Seq<u8>,
    delta: nat,
    signature: Seq<u8>,
) -> (Map<Seq<u8>, LineageView>, Option<CandidateView>) {
    match plan_spec(state, relay_parent, delta) {
        PlanView::Reuse(candidate) => (state, Some(candidate)),
        PlanView::Unavailable => (state, None),
        PlanView::Build { prior, head } => {
            let candidate = CandidateView {
                relay_parent,
                head_data: head,
                proof_of_validity: ProofView { prior_head: prior, delta },
                collator_signature: signature,
            };
            (
                state.insert(relay_parent, LineageView { head: prior, pending: Some(candidate) }),
                Some(candidate),
            )
        },
    }
}

/// The state after the pending candidate of `relay_parent` is accepted, and
/// the head that became canonical. Without a pending candidate nothing
/// changes.
pub open spec fn advance_spec(state: Map<Seq<u8>, LineageView>, relay_parent: Seq<u8>) -> (
    Map<Seq<u8>, LineageView>,
    Option<HeadView>,
) {
    match lineage_of(state, relay_parent).pending {
        Some(candidate) => (
            state.insert(relay_parent, LineageView { head: candidate.head_data, pending: None }),
            Some(candidate.head_data),
        ),
        None => (state, None),
    }
}

/// Whether a record is sound for its relay parent: a pending candidate names
/// that relay parent, is built on the canonical head with the builder's
/// increment, and carries a sufficient proof.
pub open spec fn lineage_sound(relay_parent: Seq<u8>, lineage: LineageView, delta: nat) -> bool {
    lineage.pending matches Some(candidate) ==> {
        &&& candidate.relay_parent == relay_parent
        &&& candidate.proof_of_validity.prior_head == lineage.head
        &&& candidate.proof_of_validity.delta == delta
        &&& candidate.proof_sufficient()
    }
}

/// Whether every record of the state is sound.
pub open spec fn state_sound(state: Map<Seq<u8>, LineageView>, delta: nat) -> bool {
    forall|relay_parent: Seq<u8>| #[trigger]
        state.dom().contains(relay_parent) ==> lineage_sound(
            relay_parent,
            state[relay_parent],
            delta,
        )
}

/// One relay parent with its record.
struct Entry {
    relay_parent: RelayParent,
    lineage: Lineage,
}

spec fn key_at(entries: Seq<Entry>, i: int) -> Seq<u8> {
    entries[i].relay_parent@
}

spec fn has_key(entries: Seq<Entry>, relay_parent: Seq<u8>) -> bool {
    exists|i: int| 0 <= i < entries.len() && #[trigger] key_at(entries, i) == relay_parent
}

spec fn index_of(entries: Seq<Entry>, relay_parent: Seq<u8>) -> int {
    choose|i: int| 0 <= i < entries.len() && #[trigger] key_at(entries, i) == relay_parent
}

/// No relay parent has two entries.
spec fn distinct_keys(entries: Seq<Entry>) -> bool {
    forall|i: int, j: int|
        0 <= i < j < entries.len() ==> #[trigger] key_at(entries, i) != #[trigger] key_at(
            entries,
            j,
        )
}

/// The map that a list of entries with distinct relay parents stands for.
spec fn entries_map(entries: Seq<Entry>) -> Map<Seq<u8>, LineageView> {
    Map::new(
        |relay_parent: Seq<u8>| has_key(entries, relay_parent),
        |relay_parent: Seq<u8>| entries[index_of(entries, relay_parent)].lineage@,
    )
}

proof fn lemma_entry_found(entries: Seq<Entry>, i: int)
    requires
        distinct_keys(entries),
        0 <= i < entries.len(),
    ensures
        entries_map(entries).dom().contains(entries[i].relay_parent@),
        entries_map(entries)[entries[i].relay_parent@] == entries[i].lineage@,
{
    let relay_parent = key_at(entries, i);
    assert(has_key(entries, relay_parent));
    let j = index_of(entries, relay_parent);
    assert(key_at(entries, j) == relay_parent);
    assert(i == j);
}

proof fn lemma_entry_pushed(entries: Seq<Entry>, entry: Entry)
    requires
        distinct_keys(entries),
        !has_key(entries, entry.relay_parent@),
    ensures
        distinct_keys(entries.push(entry)),
        entries_map(entries.push(entry)) == entries_map(entries).insert(
            entry.relay_parent@,
            entry.lineage@,
        ),
{
    let longer = entries.push(entry);
    let last = entries.len() as int;
    let key = entry.relay_parent@;
    assert forall|i: int, j: int| 0 <= i < j < longer.len() implies #[trigger] key_at(longer, i)
        != #[trigger] key_at(longer, j) by {
        assert(key_at(entries, i) == key_at(longer, i));
        if j != last {
            assert(key_at(entries, j) == key_at(longer, j));
        }
    }
    let expected = entries_map(entries).insert(key, entry.lineage@);
    assert forall|relay_parent: Seq<u8>| #[trigger]
        entries_map(longer).dom().contains(relay_parent) == expected.dom().contains(
            relay_parent,
        ) by {
        if has_key(longer, relay_parent) {
            let i = index_of(longer, relay_parent);
            if i < last {
                assert(key_at(entries, i) == relay_parent);
            }
        }
        if relay_parent == key {
            assert(key_at(longer, last) == relay_parent);
        } else if has_key(entries, relay_parent) {
            let i = index_of(entries, relay_parent);
            assert(key_at(longer, i) == relay_parent);
        }
    }
    assert forall|relay_parent: Seq<u8>| #[trigger]
        entries_map(longer).dom().contains(relay_parent) implies entries_map(
        longer,
    )[relay_parent] == expected[relay_parent] by {
        if relay_parent == key {
            assert(key_at(longer, last) == relay_parent);
            lemma_entry_found(longer, last);
        } else {
            let i = index_of(entries, relay_parent);
            assert(key_at(longer, i) == relay_parent);
            lemma_entry_found(longer, i);
            lemma_entry_found(entries, i);
        }
    }
    assert(entries_map(longer) =~= expected);
}

proof fn lemma_entry_replaced(entries: Seq<Entry>, i: int, entry: Entry)
    requires
        distinct_keys(entries),
        0 <= i < entries.len(),
        entry.relay_parent@ == entries[i].relay_parent@,
    ensures
        distinct_keys(entries.update(i, entry)),
        entries_map(entries.update(i, entry)) == entries_map(entries).insert(
            entry.relay_parent@,
            entry.lineage@,
        ),
{
    let key = entry.relay_parent@;
    let changed = entries.update(i, entry);
    assert forall|k: int| 0 <= k < entries.len() implies #[trigger] key_at(changed, k) == key_at(
        entries,
        k,
    ) by {}
    assert forall|a: int, b: int| 0 <= a < b < changed.len() implies #[trigger] key_at(changed, a)
        != #[trigger] key_at(changed, b) by {
        assert(key_at(entries, a) != key_at(entries, b));
    }
    let expected = entries_map(entries).insert(key, entry.lineage@);
    assert forall|relay_parent: Seq<u8>| #[trigger]
        entries_map(changed).dom().contains(relay_parent) == expected.dom().contains(
            relay_parent,
        ) by {
        if has_key(changed, relay_parent) {
            let k = index_of(changed, relay_parent);
            assert(key_at(entries, k) == relay_parent);
        }
        if has_key(entries, relay_parent) {
            let k = index_of(entries, relay_parent);
            assert(key_at(changed, k) == relay_parent);
        }
        if relay_parent == key {
            assert(key_at(changed, i) == relay_parent);
        }
    }
    assert forall|relay_parent: Seq<u8>| #[trigger]
        entries_map(changed).dom().contains(relay_parent) implies entries_map(
        changed,
    )[relay_parent] == expected[relay_parent] by {
        let k = index_of(changed, relay_parent);
        assert(key_at(changed, k) == relay_parent);
        lemma_entry_found(changed, k);
        if k != i {
            assert(key_at(entries, k) == relay_parent);
            assert(key_at(entries, i) == key);
            assert(relay_parent != key);
            lemma_entry_found(entries, k);
            assert(changed[k].lineage == entries[k].lineage);
        } else {
            assert(key_at(changed, i) == key);
        }
    }
    assert(entries_map(changed) =~= expected);
}

/// Builds candidates on request and keeps the record of every relay parent.
///
/// The view of a builder is the map from the relay parents it has seen to
/// their records.
pub struct CollationBuilder {
    identity: CollatorIdentity,
    delta: u32,
    entries: Vec<Entry>,
}

impl View for CollationBuilder {
    type V = Map<Seq<u8>, LineageView>;

    closed spec fn view(&self) -> Map<Seq<u8>, LineageView> {
        entries_map(self.entries@)
    }
}

impl CollationBuilder {
    #[verifier::type_invariant]
    spec fn well_formed(self) -> bool {
        &&& distinct_keys(self.entries@)
        &&& state_sound(entries_map(self.entries@), self.delta as nat)
    }

    /// The increment of every block that this builder proposes.
    pub closed spec fn spec_delta(&self) -> u32 {
        self.delta
    }

    /// The bytes of the identifier of the collator that signs the candidates.
    pub closed spec fn spec_collator_id(&self) -> Seq<u8> {
        self.identity.id()
    }

    /// A builder that has seen no relay parent. It signs with `identity` and
    /// proposes blocks that add `delta`.
    pub fn new(identity: CollatorIdentity, delta: u32) -> (builder: CollationBuilder)
        ensures
            builder@ == Map::<Seq<u8>, LineageView>::empty(),
            builder.spec_delta() == delta,
            builder.spec_collator_id() == identity.id(),
            state_sound(builder@, delta as nat),
    {
        let entries: Vec<Entry> = Vec::new();
        assert(entries_map(entries@) =~= Map::<Seq<u8>, LineageView>::empty());
        CollationBuilder { identity, delta, entries }
    }

    /// The increment of every block that this builder proposes.
    pub fn delta(&self) -> (delta: u32)
        ensures
            delta == self.spec_delta(),
    {
        self.delta
    }

    /// The identifier of the collator that signs the candidates.
    pub fn collator_id(&self) -> (id: CollatorId)
        ensures
            id@ == self.spec_collator_id(),
    {
        self.identity.collator_id()
    }

    /// The position of the entry of `relay_parent`, if there is one.
    fn find(&self, relay_parent: &RelayParent) -> (found: Option<usize>)
        ensures
            match found {
                Some(i) => i < self.entries@.len() && self.entries@[i as int].relay_parent@
                    == relay_parent@,
                None => !has_key(self.entries@, relay_parent@),
            },
    {
        let mut i: usize = 0;
        while i < self.entries.len()
            invariant
                i <= self.entries@.len(),
                forall|k: int| 0 <= k < i ==> #[trigger] key_at(self.entries@, k) != relay_parent@,
            decreases self.entries@.len() - i,
        {
            if self.entries[i].relay_parent.same(relay_parent) {
                return Some(i);
            }
            assert(key_at(self.entries@, i as int) != relay_parent@);
            i += 1;
        }
        None
    }

    /// What the builder records for `relay_parent`: the genesis head with
    /// nothing pending if it has not seen the relay parent.
    pub fn lineage(&self, relay_parent: &RelayParent) -> (lineage: Lineage)
        ensures
            lineage@ == lineage_of(self@, relay_parent@),
            lineage_sound(relay_parent@, lineage@, self.spec_delta() as nat),
    {
        proof {
            use_type_invariant(self);
        }
        match self.find(relay_parent) {
            Some(i) => {
                proof {
                    lemma_entry_found(self.entries@, i as int);
                }
                self.entries[i].lineage
            },
            None => Lineage { head: genesis_head(), pending: None },
        }
    }

    /// The head that is canonical under `relay_parent`: the genesis head
    /// until a candidate for that relay parent has been accepted.
    pub fn head_for(&self, relay_parent: &RelayParent) -> (head: HeadData)
        ensures
            head@ == lineage_of(self@, relay_parent@).head,
    {
        self.lineage(relay_parent).head
    }

    /// What a request for `relay_parent` leads to now.
    pub fn plan(&self, relay_parent: &RelayParent) -> (plan: Plan)
        ensures
            plan@ == plan_spec(self@, relay_parent@, self.spec_delta() as nat),
    {
        let lineage = self.lineage(relay_parent);
        match lineage.pending {
            Some(candidate) => Plan::Reuse(candidate),
            None => match apply(lineage.head, self.delta) {
                Ok(head) => Plan::Build { prior: lineage.head, head },
                Err(_) => Plan::Unavailable,
            },
        }
    }

    /// Stores `lineage` as the record of `relay_parent`.
    fn record(&mut self, relay_parent: RelayParent, lineage: Lineage)
        requires
            lineage_sound(relay_parent@, lineage@, old(self).spec_delta() as nat),
        ensures
            final(self)@ == old(self)@.insert(relay_parent@, lineage@),
            final(self).spec_delta() == old(self).spec_delta(),
            final(self).spec_collator_id() == old(self).spec_collator_id(),
    {
        proof {
            use_type_invariant(&*self);
        }
        let found = self.find(&relay_parent);
        let mut entries: Vec<Entry> = Vec::new();
        assert(entries_map(entries@) =~= Map::<Seq<u8>, LineageView>::empty());
        core::mem::swap(&mut self.entries, &mut entries);
        let ghost before = entries@;
        let entry = Entry { relay_parent, lineage };
        proof {
            lemma_sound_after_insert(
                entries_map(before),
                relay_parent@,
                lineage@,
                self.delta as nat,
            );
        }
        match found {
            Some(i) => {
                proof {
                    lemma_entry_replaced(before, i as int, entry);
                }
                entries[i] = entry;
            },
            None => {
                proof {
                    lemma_entry_pushed(before, entry);
                }
                entries.push(entry);
            },
        }
        self.entries = entries;
    }

    /// Answers a request for `relay_parent` with `signature` as the
    /// collator's signature, should a block be built.
    ///
    /// A candidate that is pending for the relay parent is handed out again
    /// and `signature` is not used. Otherwise the block is executed on the
    /// canonical head. If the transition is refused there is no candidate and
    /// nothing changes. If it is allowed the candidate is recorded as pending
    /// and handed out. The canonical head does not move.
    pub fn seal(
        &mut self,
        relay_parent: RelayParent,
        signature: Signature,
    ) -> (candidate: Option<Candidate>)
        ensures
            (final(self)@, candidate_view(candidate)) == collate_spec(
                old(self)@,
                relay_parent@,
                old(self).spec_delta() as nat,
                signature@,
            ),
            candidate matches Some(c) ==> {
                &&& c@.relay_parent == relay_parent@
                &&& c@.proof_of_validity.prior_head == lineage_of(old(self)@, relay_parent@).head
                &&& c@.proof_of_validity.delta == old(self).spec_delta()
                &&& c@.proof_sufficient()
            },
            state_sound(final(self)@, final(self).spec_delta() as nat),
            final(self).spec_delta() == old(self).spec_delta(),
            final(self).spec_collator_id() == old(self).spec_collator_id(),
    {
        proof {
            use_type_invariant(&*self);
            lemma_collate_sound(self@, relay_parent@, self.delta as nat, signature@);
        }
        match self.plan(&relay_parent) {
            Plan::Reuse(candidate) => Some(candidate),
            Plan::Unavailable => None,
            Plan::Build { prior, head } => {
                let candidate = Candidate {
                    relay_parent,
                    head_data: head,
                    proof_of_validity: ProofOfValidity { prior_head: prior, delta: self.delta },
                    collator_signature: signature,
                };
                self.record(relay_parent, Lineage { head: prior, pending: Some(candidate) });
                Some(candidate)
            },
        }
    }

    /// Answers a request of the relay chain for a collation on top of
    /// `relay_parent`.
    ///
    /// This is [`CollationBuilder::seal`] with a signature that the collator
    /// makes over the encoded head of the block, if a block is built: that
    /// signature verifies for the encoded head under the collator's
    /// identifier. There is no candidate exactly when the transition is
    /// refused. The validation data of the request plays no part in the
    /// result.
    #[allow(unused_variables)]
    pub fn create_collation(
        &mut self,
        relay_parent: RelayParent,
        validation_data: &[u8],
    ) -> (candidate: Option<Candidate>)
        ensures
            candidate is None <==> plan_spec(
                old(self)@,
                relay_parent@,
                old(self).spec_delta() as nat,
            ) is Unavailable,
            candidate is None ==> final(self)@ == old(self)@,
            candidate matches Some(c) ==> (final(self)@, Some(c@)) == collate_spec(
                old(self)@,
                relay_parent@,
                old(self).spec_delta() as nat,
                c@.collator_signature,
            ),
            candidate matches Some(c) ==> {
                &&& c@.relay_parent == relay_parent@
                &&& c@.proof_of_validity.prior_head == lineage_of(old(self)@, relay_parent@).head
                &&& c@.proof_of_validity.delta == old(self).spec_delta()
                &&& c@.proof_sufficient()
            },
            plan_spec(old(self)@, relay_parent@, old(self).spec_delta() as nat) is Build ==> (
            candidate matches Some(c) && sr25519_verifies(
                c@.collator_signature,
                encode_spec(c@.head_data),
                old(self).spec_collator_id(),
            )),
            state_sound(final(self)@, final(self).spec_delta() as nat),
            final(self).spec_delta() == old(self).spec_delta(),
            final(self).spec_collator_id() == old(self).spec_collator_id(),
    {
        proof {
            use_type_invariant(&*self);
        }
        match self.plan(&relay_parent) {
            Plan::Reuse(candidate) => {
                proof {
                    lemma_collate_sound(
                        self@,
                        relay_parent@,
                        self.delta as nat,
                        candidate@.collator_signature,
                    );
                }
                Some(candidate)
            },
            Plan::Unavailable => None,
            Plan::Build { prior, head } => {
                let message = head.encode();
                let signature = self.identity.sign(message.as_slice());
                self.seal(relay_parent, signature)
            },
        }
    }

    /// Accepts the candidate that is pending for `relay_parent`: its head
    /// becomes the canonical head and nothing is pending any more. Returns
    /// that head. Without a pending candidate nothing changes.
    pub fn advance(&mut self, relay_parent: RelayParent) -> (head: Option<HeadData>)
        ensures
            (final(self)@, head_view(head)) == advance_spec(old(self)@, relay_parent@),
            head matches Some(h) ==> apply_spec(
                lineage_of(old(self)@, relay_parent@).head,
                old(self).spec_delta() as nat,
            ) == Ok::<HeadView, InvalidTransition>(h@),
            state_sound(final(self)@, final(self).spec_delta() as nat),
            final(self).spec_delta() == old(self).spec_delta(),
            final(self).spec_collator_id() == old(self).spec_collator_id(),
    {
        proof {
            use_type_invariant(&*self);
            lemma_advance_sound(self@, relay_parent@, self.delta as nat);
        }
        match self.lineage(&relay_parent).pending {
            Some(candidate) => {
                self.record(relay_parent, Lineage { head: candidate.head_data, pending: None });
                Some(candidate.head_data)
            },
            None => None,
        }
    }
}

/// A sound state stays sound when a sound record is stored in it.
pub proof fn lemma_sound_after_insert(
    state: Map<Seq<u8>, LineageView>,
    relay_parent: Seq<u8>,
    lineage: LineageView,
    delta: nat,
)
    requires
        state_sound(state, delta),
        lineage_sound(relay_parent, lineage, delta),
    ensures
        state_sound(state.insert(relay_parent, lineage), delta),
{
    let after = state.insert(relay_parent, lineage);
    assert forall|other: Seq<u8>| #[trigger] after.dom().contains(other) implies lineage_sound(
        other,
        after[other],
        delta,
    ) by {
        if other != relay_parent {
            assert(state.dom().contains(other));
        }
    }
}

} // verus!

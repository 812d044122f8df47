//! The registration handshake with the relay-chain node's message bus.
//!
//! A collator registers in two steps. It sends `Initialize`, waits until the
//! bus has taken delivery, and only then sends `CollateOn`. The bridge decides
//! what to do next. Its caller does the sending and reports back what came of
//! it.

use vstd::prelude::*;
use vstd::string::StringExecFns;
use crate::identity::CollatorId;
use crate::role::{check, check_spec, ConfigurationError, Role};

verus! {

/// The identifier of the adder parachain on the relay chain.
pub const PARA_ID: u32 = 100;

/// A message for the bus. The collation function that `Initialize` also
/// carries is bound to it by the sender.
#[derive(Clone, Copy, Debug, PartialEq, Eq)]
pub enum BusMessage {
    /// Registers the collator of parachain `para_id` under its public key.
    Initialize { collator_key: CollatorId, para_id: u32 },
    /// Tells the bus to start asking for collations for `para_id`.
    CollateOn { para_id: u32 },
}

/// The handshake cannot be completed. The node cannot collate and must stop.
#[derive(Clone, Copy, Debug, PartialEq, Eq, Structural)]
pub enum ProtocolInvariantViolation {
    /// The bus did not take `Initialize`.
    InitializeNotDelivered,
    /// The bus did not take `CollateOn`.
    CollateOnNotDelivered,
    /// Something was reported that the handshake was not waiting for.
    UnexpectedEvent,
}

impl ProtocolInvariantViolation {
    /// The words that tell the operator what went wrong.
    pub fn message(&self) -> (text: String)
        ensures
            text@ == (match *self {
                ProtocolInvariantViolation::InitializeNotDelivered => "Registers collator"@,
                ProtocolInvariantViolation::CollateOnNotDelivered => "Collates on"@,
                ProtocolInvariantViolation::UnexpectedEvent => "Handshake out of order"@,
            }),
    {
        match self {
            ProtocolInvariantViolation::InitializeNotDelivered => String::from_str(
                "Registers collator",
            ),
            ProtocolInvariantViolation::CollateOnNotDelivered => String::from_str("Collates on"),
            ProtocolInvariantViolation::UnexpectedEvent => String::from_str(
                "Handshake out of order",
            ),
        }
    }
}

/// How far the handshake has come.
#[derive(Clone, Copy, Debug, PartialEq, Eq, Structural)]
pub enum Phase {
    /// Nothing has happened yet.
    Idle,
    /// `Initialize` was handed to the caller and is not yet acknowledged.
    AwaitingInitialize,
    /// `CollateOn` was handed to the caller and is not yet acknowledged.
    AwaitingCollateOn,
    /// Both messages were delivered. The node collates.
    Registered,
    /// The role of the node was refused. Nothing was sent.
    Rejected,
    /// The handshake failed for good.
    Aborted,
}

/// What the caller reports to the bridge.
#[derive(Clone, Copy, Debug, PartialEq, Eq, Structural)]
pub enum Event {
    /// The node starts under the given role.
    Start(Role),
    /// The bus took delivery of the message sent last.
    Delivered,
    /// The message sent last could not be delivered.
    SendFailed,
}

/// What the bridge asks of its caller.
#[derive(Clone, Copy, Debug, PartialEq, Eq)]
pub enum Action {
    /// Send this message and report whether it was delivered.
    Send(BusMessage),
    /// The handshake is complete: serve collation requests.
    Collate,
    /// Stop the node and report the configuration error.
    Exit(ConfigurationError),
    /// Stop the node at once and report the violation.
    Abort(ProtocolInvariantViolation),
    /// Nothing to do.
    Nothing,
}

/// Whether the action is the sending of `Initialize`.
pub open spec fn sends_initialize(action: Action) -> bool {
    action matches Action::Send(BusMessage::Initialize { .. })
}

/// Whether the action is the sending of `CollateOn`.
pub open spec fn sends_collate_on(action: Action) -> bool {
    action matches Action::Send(BusMessage::CollateOn { .. })
}

/// Whether the handshake has ended, well or badly.
pub open spec fn is_final(phase: Phase) -> bool {
    phase is Registered || phase is Rejected || phase is Aborted
}

/// The handshake as a function: the next phase and the action to take, given
/// the phase, what was reported, and the key and parachain to register.
pub open spec fn step_spec(phase: Phase, event: Event, collator_key: CollatorId, para_id: u32) -> (
    Phase,
    Action,
) {
    match (phase, event) {
        (Phase::Idle, Event::Start(role)) => match check_spec(role) {
            Ok(_) => (
                Phase::AwaitingInitialize,
                Action::Send(BusMessage::Initialize { collator_key, para_id }),
            ),
            Err(error) => (Phase::Rejected, Action::Exit(error)),
        },
        (Phase::AwaitingInitialize, Event::Delivered) => (
            Phase::AwaitingCollateOn,
            Action::Send(BusMessage::CollateOn { para_id }),
        ),
        (Phase::AwaitingInitialize, Event::SendFailed) => (
            Phase::Aborted,
            Action::Abort(ProtocolInvariantViolation::InitializeNotDelivered),
        ),
        (Phase::AwaitingCollateOn, Event::Delivered) => (Phase::Registered, Action::Collate),
        (Phase::AwaitingCollateOn, Event::SendFailed) => (
            Phase::Aborted,
            Action::Abort(ProtocolInvariantViolation::CollateOnNotDelivered),
        ),
        (Phase::Registered, _) => (Phase::Registered, Action::Nothing),
        (Phase::Rejected, _) => (Phase::Rejected, Action::Nothing),
        (Phase::Aborted, _) => (Phase::Aborted, Action::Nothing),
        _ => (Phase::Aborted, Action::Abort(ProtocolInvariantViolation::UnexpectedEvent)),
    }
}

/// The actions that a series of reports leads to, one for each report, when
/// the handshake stands at `phase` before the first.
pub open spec fn run_spec(
    phase: Phase,
    events: Seq<Event>,
    collator_key: CollatorId,
    para_id: u32,
) -> Seq<Action>
    decreases events.len(),
{
    if events.len() == 0 {
        Seq::empty()
    } else {
        let (next, action) = step_spec(phase, events[0], collator_key, para_id);
        seq![action] + run_spec(next, events.drop_first(), collator_key, para_id)
    }
}

/// The handshake of one node with the bus.
pub struct OverseerBridge {
    phase: Phase,
    collator_key: CollatorId,
    para_id: u32,
}

impl OverseerBridge {
    /// How far the handshake has come.
    pub closed spec fn spec_phase(&self) -> Phase {
        self.phase
    }

    /// The public key under which the collator registers.
    pub closed spec fn spec_collator_key(&self) -> CollatorId {
        self.collator_key
    }

    /// The parachain for which the collator registers.
    pub closed spec fn spec_para_id(&self) -> u32 {
        self.para_id
    }

    /// A handshake that has not begun.
    pub fn new(collator_key: CollatorId, para_id: u32) -> (bridge: OverseerBridge)
        ensures
            bridge.spec_phase() == Phase::Idle,
            bridge.spec_collator_key() == collator_key,
            bridge.spec_para_id() == para_id,
    {
        OverseerBridge { phase: Phase::Idle, collator_key, para_id }
    }

    /// How far the handshake has come.
    pub fn phase(&self) -> (phase: Phase)
        ensures
            phase == self.spec_phase(),
    {
        self.phase
    }

    /// Takes a report and says what to do next.
    pub fn step(&mut self, event: Event) -> (action: Action)
        ensures
            (final(self).spec_phase(), action) == step_spec(
                old(self).spec_phase(),
                event,
                old(self).spec_collator_key(),
                old(self).spec_para_id(),
            ),
            final(self).spec_collator_key() == old(self).spec_collator_key(),
            final(self).spec_para_id() == old(self).spec_para_id(),
    {
        let (next, action) = match self.phase {
            Phase::Idle => match event {
                Event::Start(role) => match check(role) {
                    Ok(_) => (
                        Phase::AwaitingInitialize,
                        Action::Send(
                            BusMessage::Initialize {
                                collator_key: self.collator_key,
                                para_id: self.para_id,
                            },
                        ),
                    ),
                    Err(error) => (Phase::Rejected, Action::Exit(error)),
                },
                _ => (Phase::Aborted, Action::Abort(ProtocolInvariantViolation::UnexpectedEvent)),
            },
            Phase::AwaitingInitialize => match event {
                Event::Delivered => (
                    Phase::AwaitingCollateOn,
                    Action::Send(BusMessage::CollateOn { para_id: self.para_id }),
                ),
                Event::SendFailed => (
                    Phase::Aborted,
                    Action::Abort(ProtocolInvariantViolation::InitializeNotDelivered),
                ),
                Event::Start(_) => (
                    Phase::Aborted,
                    Action::Abort(ProtocolInvariantViolation::UnexpectedEvent),
                ),
            },
            Phase::AwaitingCollateOn => match event {
                Event::Delivered => (Phase::Registered, Action::Collate),
                Event::SendFailed => (
                    Phase::Aborted,
                    Action::Abort(ProtocolInvariantViolation::CollateOnNotDelivered),
                ),
                Event::Start(_) => (
                    Phase::Aborted,
                    Action::Abort(ProtocolInvariantViolation::UnexpectedEvent),
                ),
            },
            Phase::Registered => (Phase::Registered, Action::Nothing),
            Phase::Rejected => (Phase::Rejected, Action::Nothing),
            Phase::Aborted => (Phase::Aborted, Action::Nothing),
        };
        self.phase = next;
        action
    }
}

/// One action for each report.
pub proof fn lemma_run_len(phase: Phase, events: Seq<Event>, collator_key: CollatorId, para_id: u32)
    ensures
        run_spec(phase, events, collator_key, para_id).len() == events.len(),
    decreases events.len(),
{
    if events.len() > 0 {
        let (next, action) = step_spec(phase, events[0], collator_key, para_id);
        lemma_run_len(next, events.drop_first(), collator_key, para_id);
    }
}

/// Once `CollateOn` is out, or the handshake has ended, nothing is sent any
/// more.
pub proof fn lemma_silent_after_collate_on(
    phase: Phase,
    events: Seq<Event>,
    collator_key: CollatorId,
    para_id: u32,
    j: int,
)
    requires
        phase is AwaitingCollateOn || is_final(phase),
        0 <= j < events.len(),
    ensures
        !(run_spec(phase, events, collator_key, para_id)[j] is Send),
    decreases events.len(),
{
    let (next, action) = step_spec(phase, events[0], collator_key, para_id);
    let rest = run_spec(next, events.drop_first(), collator_key, para_id);
    lemma_run_len(next, events.drop_first(), collator_key, para_id);
    if j > 0 {
        lemma_silent_after_collate_on(next, events.drop_first(), collator_key, para_id, j - 1);
        assert((seq![action] + rest)[j] == rest[j - 1]);
    }
}

/// While `Initialize` awaits its acknowledgement, the only message that can
/// still be sent is `CollateOn`, as the answer to the very next report, and
/// only if that report is the acknowledgement.
pub proof fn lemma_after_initialize(
    events: Seq<Event>,
    collator_key: CollatorId,
    para_id: u32,
    j: int,
)
    requires
        0 <= j < events.len(),
    ensures
        ({
            let action = run_spec(Phase::AwaitingInitialize, events, collator_key, para_id)[j];
            &&& !sends_initialize(action)
            &&& action is Send ==> j == 0 && events[0] is Delivered && sends_collate_on(action)
        }),
{
    let (next, action) = step_spec(Phase::AwaitingInitialize, events[0], collator_key, para_id);
    let rest = run_spec(next, events.drop_first(), collator_key, para_id);
    lemma_run_len(next, events.drop_first(), collator_key, para_id);
    if j > 0 {
        lemma_silent_after_collate_on(next, events.drop_first(), collator_key, para_id, j - 1);
        assert((seq![action] + rest)[j] == rest[j - 1]);
    }
}

/// Handshake ordering. Whatever is reported to a handshake that starts idle:
/// `CollateOn` is sent only after `Initialize` was sent, and only in answer
/// to the acknowledgement of `Initialize`. Each of the two is sent at most
/// once: `Initialize` as the first action, `CollateOn` as the second.
pub proof fn lemma_handshake_order(
    events: Seq<Event>,
    collator_key: CollatorId,
    para_id: u32,
    j: int,
)
    requires
        0 <= j < events.len(),
    ensures
        ({
            let actions = run_spec(Phase::Idle, events, collator_key, para_id);
            &&& sends_initialize(actions[j]) ==> j == 0
            &&& sends_collate_on(actions[j]) ==> j == 1 && sends_initialize(actions[0])
                && events[1] is Delivered
            &&& actions[j] is Send ==> sends_initialize(actions[j]) || sends_collate_on(actions[j])
        }),
{
    let (next, action) = step_spec(Phase::Idle, events[0], collator_key, para_id);
    let later = events.drop_first();
    let rest = run_spec(next, later, collator_key, para_id);
    lemma_run_len(next, later, collator_key, para_id);
    if j > 0 {
        assert((seq![action] + rest)[j] == rest[j - 1]);
        if next is AwaitingInitialize {
            lemma_after_initialize(later, collator_key, para_id, j - 1);
            assert(later[0] == events[1]);
        } else {
            lemma_silent_after_collate_on(next, later, collator_key, para_id, j - 1);
        }
    }
}

/// A node that starts as a light client sends nothing, whatever is reported
/// afterwards, and is told to exit with the configuration error.
pub proof fn lemma_light_client_sends_nothing(
    events: Seq<Event>,
    collator_key: CollatorId,
    para_id: u32,
    j: int,
)
    requires
        0 <= j < events.len(),
        events[0] == Event::Start(Role::Light),
    ensures
        !(run_spec(Phase::Idle, events, collator_key, para_id)[j] is Send),
        run_spec(Phase::Idle, events, collator_key, para_id)[0] == Action::Exit(
            ConfigurationError::RoleNotSupported(Role::Light),
        ),
{
    let (next, action) = step_spec(Phase::Idle, events[0], collator_key, para_id);
    let later = events.drop_first();
    let rest = run_spec(next, later, collator_key, para_id);
    lemma_run_len(next, later, collator_key, para_id);
    if j > 0 {
        assert((seq![action] + rest)[j] == rest[j - 1]);
        lemma_silent_after_collate_on(next, later, collator_key, para_id, j - 1);
    }
}

} // verus!

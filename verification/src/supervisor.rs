//! The connection supervisor: one self-healing state machine composing
//! the radio lifecycle and address acquisition. It runs for the life of
//! the process with no terminal state: every disconnect backs off for a
//! fixed delay and then re-associates, without a retry limit. Each entry
//! into `Ready` opens a new link generation; a socket session is valid
//! for one generation only.

use vstd::prelude::*;
use crate::acquisition::IpBinding;
use crate::errors::DisconnectReason;
use crate::errors::RadioError;

verus! {

/// Fixed back-off before re-association, in milliseconds.
pub const BACKOFF_MS: u32 = 5000;

/// Where the link stands. Only supervisor events move it.
#[derive(Clone, Copy, Debug, PartialEq, Eq, Structural)]
pub enum ConnectionState {
    /// The radio is not yet confirmed configured and started.
    Idle,
    /// An association attempt is due or in flight.
    Associating,
    /// The radio confirmed association; the link is not yet up.
    Associated,
    /// The link is up and an address is being acquired.
    AddressPending,
    /// An address is bound: sockets may open.
    Ready,
    /// The link was lost; re-association follows after the back-off.
    Disconnected(DisconnectReason),
}

/// What the outside drivers report to the supervisor.
#[derive(Clone, Copy, Debug, PartialEq, Eq)]
pub enum SupervisorEvent {
    /// The radio is configured and started.
    Started,
    /// The association attempt succeeded.
    AssociationSucceeded,
    /// The association attempt failed with the carried error.
    AssociationFailed(RadioError),
    /// The link layer came up.
    LinkUp,
    /// Address acquisition completed with the carried binding.
    AddressAcquired(IpBinding),
    /// The radio reported a disconnect, or the bound address was lost.
    Disconnect(DisconnectReason),
    /// The back-off delay after a disconnect has elapsed.
    BackoffElapsed,
}

/// What the supervisor asks its caller to do after a step.
#[derive(Clone, Copy, Debug, PartialEq, Eq, Structural)]
pub enum SupervisorAction {
    /// Nothing: the event did not apply to the state.
    Nothing,
    /// Initiate an association attempt.
    Connect,
    /// Begin address acquisition for this link.
    BeginAcquisition,
    /// Wait the carried number of milliseconds, then report
    /// `BackoffElapsed`.
    Backoff(u32),
}

/// The one transition function. A disconnect in any state but `Idle`
/// enters `Disconnected` and schedules the back-off; the back-off always
/// re-enters `Associating`; the forward chain is `Idle` to `Associating`
/// to `Associated` to `AddressPending` to `Ready`; an event that does not
/// apply to the state changes nothing.
pub open spec fn spec_step(s: ConnectionState, e: SupervisorEvent) -> (
    ConnectionState,
    SupervisorAction,
) {
    match e {
        SupervisorEvent::Started => if s is Idle {
            (ConnectionState::Associating, SupervisorAction::Connect)
        } else {
            (s, SupervisorAction::Nothing)
        },
        SupervisorEvent::AssociationSucceeded => if s is Associating {
            (ConnectionState::Associated, SupervisorAction::BeginAcquisition)
        } else {
            (s, SupervisorAction::Nothing)
        },
        SupervisorEvent::AssociationFailed(err) => if s is Associating {
            (
                ConnectionState::Disconnected(DisconnectReason::AssociationFailed(err)),
                SupervisorAction::Backoff(BACKOFF_MS),
            )
        } else {
            (s, SupervisorAction::Nothing)
        },
        SupervisorEvent::LinkUp => if s is Associated {
            (ConnectionState::AddressPending, SupervisorAction::Nothing)
        } else {
            (s, SupervisorAction::Nothing)
        },
        SupervisorEvent::AddressAcquired(b) => if s is AddressPending && b.is_bound() {
            (ConnectionState::Ready, SupervisorAction::Nothing)
        } else {
            (s, SupervisorAction::Nothing)
        },
        SupervisorEvent::Disconnect(r) => if s is Idle {
            (s, SupervisorAction::Nothing)
        } else {
            (ConnectionState::Disconnected(r), SupervisorAction::Backoff(BACKOFF_MS))
        },
        SupervisorEvent::BackoffElapsed => if s is Disconnected {
            (ConnectionState::Associating, SupervisorAction::Connect)
        } else {
            (s, SupervisorAction::Nothing)
        },
    }
}

/// The binding the supervisor holds after a step: populated whole on
/// entering `Ready`, dropped whole on a disconnect, kept otherwise.
pub open spec fn spec_step_binding(
    s: ConnectionState,
    binding: Option<IpBinding>,
    e: SupervisorEvent,
) -> Option<IpBinding> {
    match e {
        SupervisorEvent::AddressAcquired(b) => if s is AddressPending && b.is_bound() {
            Some(b)
        } else {
            binding
        },
        SupervisorEvent::Disconnect(_) => if s is Idle {
            binding
        } else {
            None
        },
        _ => binding,
    }
}

/// The state after a run of events, starting from `s`.
pub open spec fn run_states(s: ConnectionState, evs: Seq<SupervisorEvent>) -> ConnectionState
    decreases evs.len(),
{
    if evs.len() == 0 {
        s
    } else {
        run_states(spec_step(s, evs[0]).0, evs.drop_first())
    }
}

/// Running one event is taking one step.
proof fn lemma_run_one(s: ConnectionState, e: SupervisorEvent)
    ensures
        run_states(s, seq![e]) == spec_step(s, e).0,
{
    assert(seq![e].drop_first() =~= Seq::<SupervisorEvent>::empty());
    assert(run_states(spec_step(s, e).0, Seq::<SupervisorEvent>::empty()) == spec_step(s, e).0);
}

/// Running a concatenation is running the parts in order.
proof fn lemma_run_concat(s: ConnectionState, a: Seq<SupervisorEvent>, b: Seq<SupervisorEvent>)
    ensures
        run_states(s, a + b) == run_states(run_states(s, a), b),
    decreases a.len(),
{
    if a.len() == 0 {
        assert(a + b =~= b);
    } else {
        assert((a + b)[0] == a[0]);
        assert((a + b).drop_first() =~= a.drop_first() + b);
        lemma_run_concat(spec_step(s, a[0]).0, a.drop_first(), b);
    }
}

/// The events of `errs.len()` failed association attempts, each followed
/// by its back-off.
pub open spec fn retry_events(errs: Seq<RadioError>) -> Seq<SupervisorEvent>
    decreases errs.len(),
{
    if errs.len() == 0 {
        Seq::empty()
    } else {
        seq![
            SupervisorEvent::AssociationFailed(errs[0]),
            SupervisorEvent::BackoffElapsed,
        ] + retry_events(errs.drop_first())
    }
}

/// Each failed attempt backs off and returns the supervisor to
/// `Associating`: retry goes on without limit and without escalating.
proof fn lemma_retries_return_to_associating(errs: Seq<RadioError>)
    ensures
        run_states(ConnectionState::Associating, retry_events(errs))
            == ConnectionState::Associating,
    decreases errs.len(),
{
    if errs.len() > 0 {
        let two = seq![
            SupervisorEvent::AssociationFailed(errs[0]),
            SupervisorEvent::BackoffElapsed,
        ];
        lemma_run_concat(ConnectionState::Associating, two, retry_events(errs.drop_first()));
        let mid = spec_step(
            ConnectionState::Associating,
            SupervisorEvent::AssociationFailed(errs[0]),
        ).0;
        assert(two.drop_first() =~= seq![SupervisorEvent::BackoffElapsed]);
        lemma_run_one(mid, SupervisorEvent::BackoffElapsed);
        assert(run_states(ConnectionState::Associating, two) == ConnectionState::Associating);
        lemma_retries_return_to_associating(errs.drop_first());
    }
}

/// With accepted credentials, a started radio, and a radio that accepts
/// association on attempt `errs.len() + 1`, the supervisor reaches
/// `Ready` after exactly that bounded run: startup, the failed attempts
/// with their back-offs, then association, link-up, and the bound
/// address.
pub proof fn lemma_supervisor_reaches_ready(errs: Seq<RadioError>, b: IpBinding)
    requires
        b.is_bound(),
    ensures
        run_states(
            ConnectionState::Idle,
            seq![SupervisorEvent::Started] + retry_events(errs) + seq![
                SupervisorEvent::AssociationSucceeded,
                SupervisorEvent::LinkUp,
                SupervisorEvent::AddressAcquired(b),
            ],
        ) == ConnectionState::Ready,
{
    let start = seq![SupervisorEvent::Started];
    let finish = seq![
        SupervisorEvent::AssociationSucceeded,
        SupervisorEvent::LinkUp,
        SupervisorEvent::AddressAcquired(b),
    ];
    lemma_run_concat(ConnectionState::Idle, start + retry_events(errs), finish);
    lemma_run_concat(ConnectionState::Idle, start, retry_events(errs));
    lemma_run_one(ConnectionState::Idle, SupervisorEvent::Started);
    lemma_retries_return_to_associating(errs);
    assert(run_states(ConnectionState::Idle, start + retry_events(errs))
        == ConnectionState::Associating);
    assert(finish.drop_first() =~= seq![
        SupervisorEvent::LinkUp,
        SupervisorEvent::AddressAcquired(b),
    ]);
    assert(run_states(ConnectionState::Associating, finish) == run_states(
        ConnectionState::Associated,
        seq![SupervisorEvent::LinkUp, SupervisorEvent::AddressAcquired(b)],
    ));
    assert(seq![SupervisorEvent::LinkUp, SupervisorEvent::AddressAcquired(b)].drop_first() =~= seq![
        SupervisorEvent::AddressAcquired(b),
    ]);
    assert(run_states(
        ConnectionState::Associated,
        seq![SupervisorEvent::LinkUp, SupervisorEvent::AddressAcquired(b)],
    ) == run_states(ConnectionState::AddressPending, seq![SupervisorEvent::AddressAcquired(b)]));
    lemma_run_one(ConnectionState::AddressPending, SupervisorEvent::AddressAcquired(b));
    assert(run_states(ConnectionState::Associating, finish) == ConnectionState::Ready);
}

/// A disconnect delivered in `Ready` enters `Disconnected` with the fixed
/// back-off scheduled, and the back-off re-enters `Associating`.
pub proof fn lemma_disconnect_from_ready(r: DisconnectReason)
    ensures
        spec_step(ConnectionState::Ready, SupervisorEvent::Disconnect(r)) == (
            ConnectionState::Disconnected(r),
            SupervisorAction::Backoff(BACKOFF_MS),
        ),
        spec_step(ConnectionState::Disconnected(r), SupervisorEvent::BackoffElapsed) == (
            ConnectionState::Associating,
            SupervisorAction::Connect,
        ),
{
}

/// `Ready` is entered only from `AddressPending` on a bound address: no
/// path back to `Ready` skips the `AddressPending` phase.
pub proof fn lemma_ready_only_from_address_pending(s: ConnectionState, e: SupervisorEvent)
    ensures
        spec_step(s, e).0 is Ready ==> s is Ready || (s is AddressPending
            && e is AddressAcquired),
{
}

/// From `Disconnected` the supervisor only stays disconnected or
/// re-enters `Associating`: recovery always passes through association.
pub proof fn lemma_disconnected_reassociates(r: DisconnectReason, e: SupervisorEvent)
    ensures
        spec_step(ConnectionState::Disconnected(r), e).0 is Disconnected || spec_step(
            ConnectionState::Disconnected(r),
            e,
        ).0 is Associating,
{
}

/// A disconnect right after association backs off without beginning
/// acquisition, and acquisition is begun only on the association-success
/// transition itself: a link that drops before acquisition never asks
/// for an address.
pub proof fn lemma_early_disconnect_skips_acquisition(
    r: DisconnectReason,
    s: ConnectionState,
    e: SupervisorEvent,
)
    ensures
        spec_step(ConnectionState::Associated, SupervisorEvent::Disconnect(r)) == (
            ConnectionState::Disconnected(r),
            SupervisorAction::Backoff(BACKOFF_MS),
        ),
        spec_step(s, e).1 == SupervisorAction::BeginAcquisition ==> (s is Associating
            && e is AssociationSucceeded),
{
}

/// The supervisor: the link state, the generation counter, and the
/// binding of the current generation.
pub struct ConnectionSupervisor {
    state: ConnectionState,
    generation: u64,
    binding: Option<IpBinding>,
}

impl ConnectionSupervisor {
    /// The link state.
    pub closed spec fn state_spec(self) -> ConnectionState {
        self.state
    }

    /// The generation counter: how many times `Ready` has been entered.
    pub closed spec fn generation_spec(self) -> u64 {
        self.generation
    }

    /// The binding of the current generation, if one is bound.
    pub closed spec fn binding_spec(self) -> Option<IpBinding> {
        self.binding
    }

    /// In `Ready` there is always a populated binding.
    pub open spec fn wf(self) -> bool {
        self.state_spec() is Ready ==> (self.binding_spec() matches Some(b) && b.is_bound())
    }

    /// A fresh supervisor: idle, generation zero, nothing bound.
    pub fn new() -> (r: ConnectionSupervisor)
        ensures
            r.state_spec() == ConnectionState::Idle,
            r.generation_spec() == 0,
            r.binding_spec() is None,
            r.wf(),
    {
        ConnectionSupervisor { state: ConnectionState::Idle, generation: 0, binding: None }
    }

    /// Take one event: the state and the action follow `spec_step`, the
    /// stored binding follows `spec_step_binding`, and the generation
    /// counter grows exactly on entry into `Ready`.
    pub fn step(&mut self, event: SupervisorEvent) -> (action: SupervisorAction)
        requires
            old(self).wf(),
        ensures
            (final(self).state_spec(), action) == spec_step(old(self).state_spec(), event),
            final(self).binding_spec() == spec_step_binding(
                old(self).state_spec(),
                old(self).binding_spec(),
                event,
            ),
            final(self).generation_spec() == if final(self).state_spec() is Ready && !(old(
                self,
            ).state_spec() is Ready) {
                if old(self).generation_spec() < u64::MAX {
                    (old(self).generation_spec() + 1) as u64
                } else {
                    old(self).generation_spec()
                }
            } else {
                old(self).generation_spec()
            },
            final(self).wf(),
    {
        match event {
            SupervisorEvent::Started => {
                if matches!(self.state, ConnectionState::Idle) {
                    self.state = ConnectionState::Associating;
                    SupervisorAction::Connect
                } else {
                    SupervisorAction::Nothing
                }
            },
            SupervisorEvent::AssociationSucceeded => {
                if matches!(self.state, ConnectionState::Associating) {
                    self.state = ConnectionState::Associated;
                    SupervisorAction::BeginAcquisition
                } else {
                    SupervisorAction::Nothing
                }
            },
            SupervisorEvent::AssociationFailed(err) => {
                if matches!(self.state, ConnectionState::Associating) {
                    self.state = ConnectionState::Disconnected(
                        DisconnectReason::AssociationFailed(err),
                    );
                    SupervisorAction::Backoff(BACKOFF_MS)
                } else {
                    SupervisorAction::Nothing
                }
            },
            SupervisorEvent::LinkUp => {
                if matches!(self.state, ConnectionState::Associated) {
                    self.state = ConnectionState::AddressPending;
                }
                SupervisorAction::Nothing
            },
            SupervisorEvent::AddressAcquired(b) => {
                if matches!(self.state, ConnectionState::AddressPending) && b.address.is_some() {
                    self.state = ConnectionState::Ready;
                    self.binding = Some(b);
                    if self.generation < u64::MAX {
                        self.generation = self.generation + 1;
                    }
                }
                SupervisorAction::Nothing
            },
            SupervisorEvent::Disconnect(r) => {
                if matches!(self.state, ConnectionState::Idle) {
                    SupervisorAction::Nothing
                } else {
                    self.state = ConnectionState::Disconnected(r);
                    self.binding = None;
                    SupervisorAction::Backoff(BACKOFF_MS)
                }
            },
            SupervisorEvent::BackoffElapsed => {
                if matches!(self.state, ConnectionState::Disconnected(_)) {
                    self.state = ConnectionState::Associating;
                    SupervisorAction::Connect
                } else {
                    SupervisorAction::Nothing
                }
            },
        }
    }

    /// The link state, for callers that branch on it.
    pub fn state(&self) -> (s: ConnectionState)
        ensures
            s == self.state_spec(),
    {
        self.state
    }

    /// Sockets may open exactly now.
    pub fn is_ready(&self) -> (r: bool)
        ensures
            r == (self.state_spec() is Ready),
    {
        matches!(self.state, ConnectionState::Ready)
    }

    /// The current link generation.
    pub fn generation(&self) -> (g: u64)
        ensures
            g == self.generation_spec(),
    {
        self.generation
    }

    /// The binding of the current generation, if one is bound.
    pub fn binding(&self) -> (b: Option<IpBinding>)
        ensures
            b == self.binding_spec(),
    {
        self.binding
    }
}

} // verus!

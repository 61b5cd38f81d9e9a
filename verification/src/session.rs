//! One proxied connection as a state machine. The machine decides; the caller
//! does the socket work each action asks for and reports the outcome as the
//! next event.

use vstd::prelude::*;

verus! {

/// How often a session tries another target after a failed connection.
pub const MAX_RETRIES: u8 = 3;

/// Why a session ended.
#[derive(Clone, Copy, Debug, PartialEq, Eq, Structural)]
pub enum Outcome {
    /// No target could be selected: the connection was turned away.
    Rejected,
    /// Every attempt to connect failed and no retry is left.
    RetriesExhausted,
    /// Both directions finished. `inbound` bytes went from the client to the
    /// target and `outbound` bytes from the target to the client.
    Relayed { inbound: u64, outbound: u64 },
    /// Relaying broke off with an error.
    RelayFailed,
}

/// Where a session stands.
#[derive(Clone, Debug, PartialEq, Eq)]
pub enum SessionState {
    /// A target is to be selected. `retries` attempts have failed so far.
    SelectTarget { retries: u8 },
    /// A connection to `target` is being opened.
    Connecting { retries: u8, target: String },
    /// Bytes are being relayed between the client and `target`.
    Relaying { target: String },
    /// The session is over.
    Closed { outcome: Outcome },
}

/// What the caller reports to the session.
#[derive(Clone, Debug, PartialEq, Eq)]
pub enum SessionEvent {
    /// The registry drew `target`.
    TargetSelected { target: String },
    /// The registry has no target that may be selected.
    NoActiveTargets,
    /// The connection to the target is open.
    Connected,
    /// The connection to the target could not be opened.
    ConnectFailed,
    /// Both directions reached their end.
    RelayFinished { inbound: u64, outbound: u64 },
    /// Relaying hit an error on either leg.
    RelayFailed,
}

/// What the session asks the caller to do next.
#[derive(Clone, Debug, PartialEq, Eq)]
pub enum SessionAction {
    /// Open a connection to `target`.
    Connect { target: String },
    /// Set the weight of `target` to zero, then select another target.
    DemoteAndSelect { target: String },
    /// Set the weight of `target` to zero, then close the client's connection.
    DemoteAndClose { target: String },
    /// Relay bytes in both directions until both are done.
    Relay,
    /// Close whatever is open: the session is over.
    Close,
    /// The event does not belong to the state the session is in: do nothing.
    Ignore,
}

impl SessionState {
    /// The state every session starts in.
    pub open spec fn initial() -> SessionState {
        SessionState::SelectTarget { retries: 0 }
    }

    /// The retry counter is within its bound.
    pub open spec fn wf(self) -> bool {
        match self {
            SessionState::SelectTarget { retries } => retries <= MAX_RETRIES,
            SessionState::Connecting { retries, .. } => retries <= MAX_RETRIES,
            _ => true,
        }
    }

    /// The state that follows `event`, and the action that goes with it.
    pub open spec fn next(self, event: SessionEvent) -> (SessionState, SessionAction) {
        match (self, event) {
            (SessionState::SelectTarget { retries }, SessionEvent::TargetSelected { target }) => (
                SessionState::Connecting { retries, target },
                SessionAction::Connect { target },
            ),
            (SessionState::SelectTarget { .. }, SessionEvent::NoActiveTargets) => (
                SessionState::Closed { outcome: Outcome::Rejected },
                SessionAction::Close,
            ),
            (SessionState::Connecting { target, .. }, SessionEvent::Connected) => (
                SessionState::Relaying { target },
                SessionAction::Relay,
            ),
            (SessionState::Connecting { retries, target }, SessionEvent::ConnectFailed) => {
                if retries < MAX_RETRIES {
                    (
                        SessionState::SelectTarget { retries: (retries + 1) as u8 },
                        SessionAction::DemoteAndSelect { target },
                    )
                } else {
                    (
                        SessionState::Closed { outcome: Outcome::RetriesExhausted },
                        SessionAction::DemoteAndClose { target },
                    )
                }
            },
            (SessionState::Relaying { .. }, SessionEvent::RelayFinished { inbound, outbound }) => (
                SessionState::Closed { outcome: Outcome::Relayed { inbound, outbound } },
                SessionAction::Close,
            ),
            (SessionState::Relaying { .. }, SessionEvent::RelayFailed) => (
                SessionState::Closed { outcome: Outcome::RelayFailed },
                SessionAction::Close,
            ),
            (state, _) => (state, SessionAction::Ignore),
        }
    }

    /// The state after a sequence of events, taken first to last.
    pub open spec fn run(self, events: Seq<SessionEvent>) -> SessionState
        decreases events.len(),
    {
        if events.len() == 0 {
            self
        } else {
            self.run(events.drop_last()).next(events.last()).0
        }
    }

    /// How many connections the session asks for while it takes `events`.
    pub open spec fn attempts(self, events: Seq<SessionEvent>) -> nat
        decreases events.len(),
    {
        if events.len() == 0 {
            0
        } else {
            let earlier = self.attempts(events.drop_last());
            match self.run(events.drop_last()).next(events.last()).1 {
                SessionAction::Connect { .. } => earlier + 1,
                _ => earlier,
            }
        }
    }

    /// How many connections a session in this state may still ask for.
    pub open spec fn attempts_left(self) -> nat {
        match self {
            SessionState::SelectTarget { retries } => (MAX_RETRIES + 1 - retries) as nat,
            SessionState::Connecting { retries, .. } => (MAX_RETRIES - retries) as nat,
            _ => 0,
        }
    }
}

/// `rounds` times over: a target is selected and the connection to it fails.
pub open spec fn failing_rounds(targets: Seq<String>) -> Seq<SessionEvent>
    decreases targets.len(),
{
    if targets.len() == 0 {
        Seq::empty()
    } else {
        failing_rounds(targets.drop_last()).push(
            SessionEvent::TargetSelected { target: targets.last() },
        ).push(SessionEvent::ConnectFailed)
    }
}

/// A step keeps the retry counter within its bound, and an attempt to connect
/// uses up one of the attempts that were left.
pub proof fn lemma_step(state: SessionState, event: SessionEvent)
    requires
        state.wf(),
    ensures
        state.next(event).0.wf(),
        state.next(event).1 is Connect ==> state.next(event).0.attempts_left() + 1
            == state.attempts_left(),
        !(state.next(event).1 is Connect) ==> state.next(event).0.attempts_left()
            <= state.attempts_left(),
{
}

/// Whatever is reported to it, a session never asks for more connections than
/// its state has left: a new session asks for at most `MAX_RETRIES + 1`.
pub proof fn lemma_attempts_bounded(state: SessionState, events: Seq<SessionEvent>)
    requires
        state.wf(),
    ensures
        state.run(events).wf(),
        state.attempts(events) + state.run(events).attempts_left() <= state.attempts_left(),
        SessionState::initial().attempts_left() == MAX_RETRIES + 1,
    decreases events.len(),
{
    if events.len() > 0 {
        lemma_attempts_bounded(state, events.drop_last());
        lemma_step(state.run(events.drop_last()), events.last());
    }
}

/// A new session whose every connection fails has made one attempt per round
/// and is still selecting after up to `MAX_RETRIES` rounds; after one round
/// more it is closed, with its retries exhausted.
pub proof fn lemma_retry_bound(targets: Seq<String>)
    requires
        targets.len() <= MAX_RETRIES + 1,
    ensures
        SessionState::initial().attempts(failing_rounds(targets)) == targets.len(),
        targets.len() <= MAX_RETRIES ==> SessionState::initial().run(failing_rounds(targets)) == (
        SessionState::SelectTarget { retries: targets.len() as u8 }),
        targets.len() == MAX_RETRIES + 1 ==> SessionState::initial().run(failing_rounds(targets))
            == (SessionState::Closed { outcome: Outcome::RetriesExhausted }),
    decreases targets.len(),
{
    if targets.len() > 0 {
        let start = SessionState::initial();
        let earlier = failing_rounds(targets.drop_last());
        let selected = earlier.push(SessionEvent::TargetSelected { target: targets.last() });
        let all = failing_rounds(targets);
        lemma_retry_bound(targets.drop_last());
        assert(selected.drop_last() =~= earlier);
        assert(all.drop_last() =~= selected);
        assert(all == selected.push(SessionEvent::ConnectFailed));
        assert(start.run(selected) == start.run(earlier).next(selected.last()).0);
        assert(start.run(all) == start.run(selected).next(all.last()).0);
        assert(start.attempts(selected) == start.attempts(earlier) + 1);
        assert(start.attempts(all) == start.attempts(selected));
    }
}

/// A session: the state of one client connection on its way to a target.
#[derive(Clone, Debug)]
pub struct ProxySession {
    state: SessionState,
}

impl View for ProxySession {
    type V = SessionState;

    closed spec fn view(&self) -> SessionState {
        self.state
    }
}

impl ProxySession {
    /// A session that has yet to select its first target.
    pub fn new() -> (session: ProxySession)
        ensures
            session@ == SessionState::initial(),
            session@.wf(),
    {
        ProxySession { state: SessionState::SelectTarget { retries: 0 } }
    }

    /// Takes `event` and says what is to be done next.
    pub fn step(&mut self, event: SessionEvent) -> (action: SessionAction)
        ensures
            (final(self)@, action) == old(self)@.next(event),
            old(self)@.wf() ==> final(self)@.wf(),
    {
        let mut state = SessionState::Closed { outcome: Outcome::Rejected };
        core::mem::swap(&mut self.state, &mut state);
        let (next, action) = advance(state, event);
        self.state = next;
        action
    }

    /// Where the session stands.
    pub fn state(&self) -> (state: &SessionState)
        ensures
            *state == self@,
    {
        &self.state
    }

    /// How many attempts to connect have failed.
    pub fn retries(&self) -> (n: Option<u8>)
        ensures
            n == match self@ {
                SessionState::SelectTarget { retries } => Some(retries),
                SessionState::Connecting { retries, .. } => Some(retries),
                _ => None,
            },
    {
        match &self.state {
            SessionState::SelectTarget { retries } => Some(*retries),
            SessionState::Connecting { retries, .. } => Some(*retries),
            _ => None,
        }
    }

    /// Why the session ended, once it has.
    pub fn outcome(&self) -> (outcome: Option<Outcome>)
        ensures
            outcome == match self@ {
                SessionState::Closed { outcome } => Some(outcome),
                _ => None,
            },
    {
        match &self.state {
            SessionState::Closed { outcome } => Some(*outcome),
            _ => None,
        }
    }

    /// Whether the session is over.
    pub fn is_closed(&self) -> (closed: bool)
        ensures
            closed == (self@ is Closed),
    {
        match &self.state {
            SessionState::Closed { .. } => true,
            _ => false,
        }
    }
}

/// The state that follows `event` and the action that goes with it.
pub fn advance(state: SessionState, event: SessionEvent) -> (r: (SessionState, SessionAction))
    ensures
        r == state.next(event),
        state.wf() ==> r.0.wf(),
{
    match state {
        SessionState::SelectTarget { retries } => match event {
            SessionEvent::TargetSelected { target } => (
                SessionState::Connecting { retries, target: target.clone() },
                SessionAction::Connect { target },
            ),
            SessionEvent::NoActiveTargets => (
                SessionState::Closed { outcome: Outcome::Rejected },
                SessionAction::Close,
            ),
            _ => (SessionState::SelectTarget { retries }, SessionAction::Ignore),
        },
        SessionState::Connecting { retries, target } => match event {
            SessionEvent::Connected => (SessionState::Relaying { target }, SessionAction::Relay),
            SessionEvent::ConnectFailed => {
                if retries < MAX_RETRIES {
                    (
                        SessionState::SelectTarget { retries: retries + 1 },
                        SessionAction::DemoteAndSelect { target },
                    )
                } else {
                    (
                        SessionState::Closed { outcome: Outcome::RetriesExhausted },
                        SessionAction::DemoteAndClose { target },
                    )
                }
            },
            _ => (SessionState::Connecting { retries, target }, SessionAction::Ignore),
        },
        SessionState::Relaying { target } => match event {
            SessionEvent::RelayFinished { inbound, outbound } => (
                SessionState::Closed { outcome: Outcome::Relayed { inbound, outbound } },
                SessionAction::Close,
            ),
            SessionEvent::RelayFailed => (
                SessionState::Closed { outcome: Outcome::RelayFailed },
                SessionAction::Close,
            ),
            _ => (SessionState::Relaying { target }, SessionAction::Ignore),
        },
        SessionState::Closed { outcome } => (SessionState::Closed { outcome }, SessionAction::Ignore),
    }
}

} // verus!

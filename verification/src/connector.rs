//! The connector as a state machine.
//!
//! The machine does no work of its own. Each step takes what the caller has
//! just seen (a connection made or refused, an item of the stream, the end
//! of a delivery) and answers with what the caller does next.

use crate::backoff::{lemma_advance_wf, Backoff, BackoffModel};
use crate::payload::{decode, decode_bytes, DecodeError, Payload, PayloadModel};
use crate::sink::DeliveryOutcome;
use vstd::prelude::*;

verus! {

/// Why the connector gave up.
#[derive(Clone, Copy, Debug, PartialEq, Eq, Structural)]
pub enum Fatal {
    /// The backoff policy handed out no further wait.
    BackoffExhausted,
    /// The settings of the sink could not be used.
    InvalidConfiguration,
    /// The stream reported an error in place of an item.
    SourceFailed,
    /// The delivery call itself failed, beyond any rejection by the service.
    DeliveryCallFailed,
    /// The caller reported something that cannot follow the last action.
    OutOfTurn,
}

/// What becomes of a connection attempt, given the wait that the backoff
/// policy handed out for it.
#[derive(Clone, Copy, Debug, PartialEq, Eq, Structural)]
pub enum Attempt {
    /// The policy handed out no wait: the connector gives up.
    Exhausted,
    /// The wait has reached the ceiling: nothing is tried.
    AtCeiling,
    /// The connection is attempted; should it fail, the sleep lasts `wait`.
    Try { wait: u64 },
}

/// Where the connector stands.
#[derive(Clone, Copy, Debug, PartialEq, Eq, Structural)]
pub enum Phase {
    /// No connection is held. `attempt` is the wait drawn for the attempt
    /// that is under way, if one is.
    Reconnecting { attempt: Option<u64> },
    /// A connection is held. `delivering` says whether a record is out for
    /// delivery.
    Connected { delivering: bool },
    /// The connector gave up.
    Terminated(Fatal),
    /// The stream ended and the connector left in good order.
    Finished,
}

/// What the caller has seen since the last action.
#[derive(Debug, PartialEq, Eq)]
pub enum Event {
    /// Nothing to report: at the start, after a sleep, or after an action
    /// that only asked for a note in the log.
    Resume,
    /// The connection attempt failed.
    ConnectFailed,
    /// The connection attempt succeeded.
    ConnectSucceeded,
    /// The settings of the sink could not be resolved.
    ConfigurationInvalid,
    /// The stream handed out an item.
    Item(Vec<u8>),
    /// The stream has ended.
    SourceClosed,
    /// The stream reported an error.
    SourceFailed,
    /// The delivery call returned, with this outcome.
    DeliveryReturned(DeliveryOutcome),
    /// The delivery call itself failed.
    DeliveryCallFailed,
}

/// What the caller does next.
#[derive(Debug, PartialEq, Eq)]
pub enum Action {
    /// Try to connect to the sink, and report how it went.
    Connect,
    /// Note the failed attempt, sleep this long, then resume.
    Sleep { millis: u64 },
    /// Note that the longest wait has been reached, then resume at once.
    SkipSleep,
    /// Take the next item from the stream, and report it.
    Pull,
    /// Hand this record to the sink, and report how it went.
    Deliver(Payload),
    /// Note that an item was no record, then resume.
    SkipRecord(DecodeError),
    /// Leave with this error.
    Stop(Fatal),
    /// Leave in good order.
    Finish,
}

/// What an event is, as mathematics.
pub ghost enum EventModel {
    Resume,
    ConnectFailed,
    ConnectSucceeded,
    ConfigurationInvalid,
    Item(Seq<u8>),
    SourceClosed,
    SourceFailed,
    DeliveryReturned(DeliveryOutcome),
    DeliveryCallFailed,
}

/// What an action is, as mathematics.
pub ghost enum ActionModel {
    Connect,
    Sleep { millis: nat },
    SkipSleep,
    Pull,
    Deliver(PayloadModel),
    SkipRecord(DecodeError),
    Stop(Fatal),
    Finish,
}

impl View for Event {
    type V = EventModel;

    open spec fn view(&self) -> EventModel {
        match self {
            Event::Resume => EventModel::Resume,
            Event::ConnectFailed => EventModel::ConnectFailed,
            Event::ConnectSucceeded => EventModel::ConnectSucceeded,
            Event::ConfigurationInvalid => EventModel::ConfigurationInvalid,
            Event::Item(bytes) => EventModel::Item(bytes@),
            Event::SourceClosed => EventModel::SourceClosed,
            Event::SourceFailed => EventModel::SourceFailed,
            Event::DeliveryReturned(outcome) => EventModel::DeliveryReturned(*outcome),
            Event::DeliveryCallFailed => EventModel::DeliveryCallFailed,
        }
    }
}

impl View for Action {
    type V = ActionModel;

    open spec fn view(&self) -> ActionModel {
        match self {
            Action::Connect => ActionModel::Connect,
            Action::Sleep { millis } => ActionModel::Sleep { millis: *millis as nat },
            Action::SkipSleep => ActionModel::SkipSleep,
            Action::Pull => ActionModel::Pull,
            Action::Deliver(payload) => ActionModel::Deliver(payload@),
            Action::SkipRecord(error) => ActionModel::SkipRecord(*error),
            Action::Stop(fatal) => ActionModel::Stop(*fatal),
            Action::Finish => ActionModel::Finish,
        }
    }
}

/// The rule for a connection attempt: no wait is fatal, a wait at or above
/// the ceiling is skipped, any other wait goes with the attempt.
pub open spec fn attempt_for(drawn: Option<u64>, max_millis: nat) -> Attempt {
    match drawn {
        None => Attempt::Exhausted,
        Some(wait) => if wait >= max_millis {
            Attempt::AtCeiling
        } else {
            Attempt::Try { wait }
        },
    }
}

/// Decides what becomes of a connection attempt for which the backoff
/// policy handed out `drawn`.
pub fn plan_attempt(drawn: Option<u64>, max_millis: u64) -> (r: Attempt)
    ensures
        r == attempt_for(drawn, max_millis as nat),
{
    match drawn {
        None => Attempt::Exhausted,
        Some(wait) => if wait >= max_millis {
            Attempt::AtCeiling
        } else {
            Attempt::Try { wait }
        },
    }
}

/// What the caller reports when the delivery call has come back without an
/// error of its own: the outcome that the sink left behind, or, where it
/// left none, that the call failed.
pub open spec fn delivery_report(outcome: Option<DeliveryOutcome>) -> EventModel {
    match outcome {
        Some(outcome) => EventModel::DeliveryReturned(outcome),
        None => EventModel::DeliveryCallFailed,
    }
}

/// Builds the event that reports the end of a delivery call.
pub fn delivery_event(outcome: Option<DeliveryOutcome>) -> (r: Event)
    ensures
        r@ == delivery_report(outcome),
{
    match outcome {
        Some(outcome) => Event::DeliveryReturned(outcome),
        None => Event::DeliveryCallFailed,
    }
}

/// Whether the event is one that the caller can report after it has carried
/// out the action. Nothing follows a `Stop` or a `Finish`.
pub open spec fn answers(action: ActionModel, event: EventModel) -> bool {
    match action {
        ActionModel::Connect => event is ConnectFailed || event is ConnectSucceeded
            || event is ConfigurationInvalid,
        ActionModel::Sleep { .. } | ActionModel::SkipSleep | ActionModel::SkipRecord(_) => event
            is Resume,
        ActionModel::Pull => event is Item || event is SourceClosed || event is SourceFailed,
        ActionModel::Deliver(_) => event is DeliveryReturned || event is DeliveryCallFailed,
        ActionModel::Stop(_) | ActionModel::Finish => false,
    }
}

/// Whether the event can be reported to a connector in this phase without
/// being out of turn. A connector that has left takes no event.
pub open spec fn in_turn(phase: Phase, event: EventModel) -> bool {
    match phase {
        Phase::Reconnecting { attempt: None } => event is Resume,
        Phase::Reconnecting { attempt: Some(_) } => event is ConnectFailed || event
            is ConnectSucceeded || event is ConfigurationInvalid,
        Phase::Connected { delivering: false } => event is Resume || event is Item || event
            is SourceClosed || event is SourceFailed,
        Phase::Connected { delivering: true } => event is DeliveryReturned || event
            is DeliveryCallFailed,
        Phase::Terminated(_) | Phase::Finished => false,
    }
}

/// The error with which an event ends the connector, for the events that
/// do.
pub open spec fn fatal_of(event: EventModel) -> Option<Fatal> {
    match event {
        EventModel::ConfigurationInvalid => Some(Fatal::InvalidConfiguration),
        EventModel::SourceFailed => Some(Fatal::SourceFailed),
        EventModel::DeliveryCallFailed => Some(Fatal::DeliveryCallFailed),
        _ => None,
    }
}

/// What a connector is, as mathematics.
pub ghost struct ConnectorModel {
    pub phase: Phase,
    pub backoff: BackoffModel,
}

impl ConnectorModel {
    /// The backoff policy is well-formed.
    pub open spec fn wf(self) -> bool {
        self.backoff.wf()
    }

    /// A connector that has done nothing yet.
    pub open spec fn initial(backoff: BackoffModel) -> ConnectorModel {
        ConnectorModel { phase: Phase::Reconnecting { attempt: None }, backoff: backoff.reset() }
    }

    /// The same connector in another phase.
    pub open spec fn at(self, phase: Phase) -> ConnectorModel {
        ConnectorModel { phase, ..self }
    }

    /// The connector after it gave up.
    pub open spec fn halted(self, fatal: Fatal) -> (ConnectorModel, ActionModel) {
        (self.at(Phase::Terminated(fatal)), ActionModel::Stop(fatal))
    }

    /// The step taken when no connection is held and no attempt is under
    /// way: a wait is drawn from the backoff policy, and [`attempt_for`]
    /// decides. At the ceiling nothing is tried and nothing changes; below
    /// it the policy moves on and a connection is attempted.
    pub open spec fn begin_attempt(self) -> (ConnectorModel, ActionModel) {
        match attempt_for(Some(self.backoff.wait as u64), self.backoff.max) {
            Attempt::Exhausted => self.halted(Fatal::BackoffExhausted),
            Attempt::AtCeiling => (self, ActionModel::SkipSleep),
            Attempt::Try { wait } => (
                ConnectorModel {
                    phase: Phase::Reconnecting { attempt: Some(wait) },
                    backoff: self.backoff.advance(),
                },
                ActionModel::Connect,
            ),
        }
    }

    /// The step taken when the stream hands out an item while a connection
    /// is held and idle.
    pub open spec fn take_item(self, bytes: Seq<u8>) -> (ConnectorModel, ActionModel) {
        match decode_bytes(bytes) {
            Ok(payload) => (
                self.at(Phase::Connected { delivering: true }),
                ActionModel::Deliver(payload),
            ),
            Err(error) => (self, ActionModel::SkipRecord(error)),
        }
    }

    /// The next state and the action, for every state and every event.
    pub open spec fn step(self, event: EventModel) -> (ConnectorModel, ActionModel) {
        match self.phase {
            Phase::Terminated(fatal) => (self, ActionModel::Stop(fatal)),
            Phase::Finished => (self, ActionModel::Finish),
            Phase::Reconnecting { attempt: None } => match event {
                EventModel::Resume => self.begin_attempt(),
                _ => self.halted(Fatal::OutOfTurn),
            },
            Phase::Reconnecting { attempt: Some(wait) } => match event {
                EventModel::ConnectFailed => (
                    self.at(Phase::Reconnecting { attempt: None }),
                    ActionModel::Sleep { millis: wait as nat },
                ),
                EventModel::ConnectSucceeded => (
                    ConnectorModel {
                        phase: Phase::Connected { delivering: false },
                        backoff: self.backoff.reset(),
                    },
                    ActionModel::Pull,
                ),
                EventModel::ConfigurationInvalid => self.halted(Fatal::InvalidConfiguration),
                _ => self.halted(Fatal::OutOfTurn),
            },
            Phase::Connected { delivering: false } => match event {
                EventModel::Resume => (self, ActionModel::Pull),
                EventModel::Item(bytes) => self.take_item(bytes),
                EventModel::SourceClosed => (self.at(Phase::Finished), ActionModel::Finish),
                EventModel::SourceFailed => self.halted(Fatal::SourceFailed),
                _ => self.halted(Fatal::OutOfTurn),
            },
            Phase::Connected { delivering: true } => match event {
                EventModel::DeliveryReturned(_) => (
                    self.at(Phase::Connected { delivering: false }),
                    ActionModel::Pull,
                ),
                EventModel::DeliveryCallFailed => self.halted(Fatal::DeliveryCallFailed),
                _ => self.halted(Fatal::OutOfTurn),
            },
        }
    }
}

/// The connector: its phase and its backoff policy.
#[derive(Debug)]
pub struct Connector {
    phase: Phase,
    backoff: Backoff,
}

impl View for Connector {
    type V = ConnectorModel;

    closed spec fn view(&self) -> ConnectorModel {
        ConnectorModel { phase: self.phase, backoff: self.backoff@ }
    }
}

impl Connector {
    #[verifier::type_invariant]
    spec fn inv(self) -> bool {
        self@.wf()
    }

    /// A connector at its start: no connection, and the backoff at its floor.
    pub fn new(backoff: Backoff) -> (r: Connector)
        ensures
            r@ == ConnectorModel::initial(backoff@),
            r@.wf(),
    {
        let mut backoff = backoff;
        backoff.reset();
        Connector { phase: Phase::Reconnecting { attempt: None }, backoff }
    }

    /// Where the connector stands.
    pub fn phase(&self) -> (r: Phase)
        ensures
            r == self@.phase,
    {
        self.phase
    }

    /// The backoff policy as it stands.
    pub fn backoff(&self) -> (r: Backoff)
        ensures
            r@ == self@.backoff,
    {
        self.backoff
    }

    /// Gives up.
    fn halt(&mut self, fatal: Fatal) -> (action: Action)
        ensures
            (final(self)@, action@) == old(self)@.halted(fatal),
    {
        proof {
            use_type_invariant(&*self);
        }
        self.phase = Phase::Terminated(fatal);
        Action::Stop(fatal)
    }

    /// Takes one step: moves to the next state and says what to do next.
    pub fn step(&mut self, event: Event) -> (action: Action)
        ensures
            (final(self)@, action@) == old(self)@.step(event@),
            old(self)@.wf(),
            final(self)@.wf(),
    {
        proof {
            use_type_invariant(&*self);
            lemma_advance_wf(self@.backoff);
        }
        match self.phase {
            Phase::Terminated(fatal) => Action::Stop(fatal),
            Phase::Finished => Action::Finish,
            Phase::Reconnecting { attempt: None } => match event {
                Event::Resume => {
                    let mut backoff = self.backoff;
                    let drawn = backoff.next();
                    match plan_attempt(drawn, backoff.max_millis()) {
                        Attempt::Exhausted => self.halt(Fatal::BackoffExhausted),
                        Attempt::AtCeiling => Action::SkipSleep,
                        Attempt::Try { wait } => {
                            self.backoff = backoff;
                            self.phase = Phase::Reconnecting { attempt: Some(wait) };
                            Action::Connect
                        },
                    }
                },
                _ => self.halt(Fatal::OutOfTurn),
            },
            Phase::Reconnecting { attempt: Some(wait) } => match event {
                Event::ConnectFailed => {
                    self.phase = Phase::Reconnecting { attempt: None };
                    Action::Sleep { millis: wait }
                },
                Event::ConnectSucceeded => {
                    let mut backoff = self.backoff;
                    backoff.reset();
                    self.backoff = backoff;
                    self.phase = Phase::Connected { delivering: false };
                    Action::Pull
                },
                Event::ConfigurationInvalid => self.halt(Fatal::InvalidConfiguration),
                _ => self.halt(Fatal::OutOfTurn),
            },
            Phase::Connected { delivering: false } => match event {
                Event::Resume => Action::Pull,
                Event::Item(bytes) => match decode(bytes.as_slice()) {
                    Ok(payload) => {
                        self.phase = Phase::Connected { delivering: true };
                        Action::Deliver(payload)
                    },
                    Err(error) => Action::SkipRecord(error),
                },
                Event::SourceClosed => {
                    self.phase = Phase::Finished;
                    Action::Finish
                },
                Event::SourceFailed => self.halt(Fatal::SourceFailed),
                _ => self.halt(Fatal::OutOfTurn),
            },
            Phase::Connected { delivering: true } => match event {
                Event::DeliveryReturned(_) => {
                    self.phase = Phase::Connected { delivering: false };
                    Action::Pull
                },
                Event::DeliveryCallFailed => self.halt(Fatal::DeliveryCallFailed),
                _ => self.halt(Fatal::OutOfTurn),
            },
        }
    }
}

} // verus!

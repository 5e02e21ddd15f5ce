//! One authentication attempt as a machine: the host performs the action it
//! is given, reports what happened, and is given the next action.

use vstd::prelude::*;
use crate::apdu::{spec_empty_body, spec_probe_bytes, ApduCommand, RESPONSE_CAPACITY};
use crate::decision::AuthDecision;
use crate::error::{
    connect_error, spec_connect_error, spec_transmit_error, transmit_error, CardError, StopReason,
};
use crate::reader::{spec_names, ReaderName};

verus! {

/// How many times the attempt counter may be drawn on before the attempt is
/// given up. The draw that empties it probes no reader.
pub const MAX_ATTEMPTS: u32 = 10;

/// What the machine is waiting to hear.
#[derive(Clone, Copy, Debug, PartialEq, Eq, Structural)]
pub enum Stage {
    /// Whether the card service could be reached.
    NeedContext,
    /// Which readers are attached.
    NeedReaders,
    /// Whether the current reader's card could be opened.
    NeedConnect,
    /// What the current reader's card answered to the probe.
    NeedResponse,
    /// Nothing: the attempt is over.
    Finished(StopReason),
}

/// What the host reports after performing an action.
#[derive(Debug)]
pub enum Event {
    /// The card service was reached.
    ContextEstablished,
    /// The card service was not reached; `code` is the platform's.
    ContextFailed { code: u32 },
    /// The readers attached, in the order the card service gave.
    ReadersListed { names: Vec<ReaderName> },
    /// The readers could not be listed.
    ListFailed { code: u32 },
    /// A shared connection to the card is open.
    Connected,
    /// No connection could be opened.
    ConnectFailed { code: u32 },
    /// The card's answer, as received.
    Response { bytes: Vec<u8> },
    /// The exchange failed.
    TransmitFailed { code: u32 },
}

/// What the host is to do next. Only `Transmit` leaves a card connection
/// open: before any other action is performed the host has closed it.
#[derive(Debug)]
pub enum Action {
    /// Open a user-scoped session with the card service.
    EstablishContext,
    /// List the attached readers.
    ListReaders,
    /// Open a shared connection, under any protocol, to the card in `reader`.
    Connect { reader: ReaderName },
    /// Send `command` over the open connection.
    Transmit { command: ApduCommand },
    /// Hand `decision` to the host framework; `reason` is for the log.
    Finish { decision: AuthDecision, reason: StopReason },
}

/// An action as plain values.
pub enum ActionModel {
    EstablishContext,
    ListReaders,
    Connect(Seq<u8>),
    Transmit(Seq<u8>),
    Finish(AuthDecision, StopReason),
}

impl View for Action {
    type V = ActionModel;

    open spec fn view(&self) -> ActionModel {
        match *self {
            Action::EstablishContext => ActionModel::EstablishContext,
            Action::ListReaders => ActionModel::ListReaders,
            Action::Connect { reader } => ActionModel::Connect(reader@),
            Action::Transmit { command } => ActionModel::Transmit(command@),
            Action::Finish { decision, reason } => ActionModel::Finish(decision, reason),
        }
    }
}

impl ActionModel {
    /// Whether performing the action touches the card service.
    pub open spec fn is_hardware(self) -> bool {
        !(self is Finish)
    }
}

/// The state of an attempt as plain values.
pub struct SessionModel {
    pub stage: Stage,
    /// What is left of the attempt counter.
    pub attempts_remaining: nat,
    /// The reader names, once listed.
    pub readers: Seq<Seq<u8>>,
    /// Position of the reader being tried.
    pub current: nat,
}

/// The state before anything has been done.
pub open spec fn spec_initial() -> SessionModel {
    SessionModel {
        stage: Stage::NeedContext,
        attempts_remaining: MAX_ATTEMPTS as nat,
        readers: Seq::empty(),
        current: 0,
    }
}

/// What holds of every state the machine can be in.
pub open spec fn spec_valid(s: SessionModel) -> bool {
    &&& s.attempts_remaining <= MAX_ATTEMPTS
    &&& (s.stage == Stage::NeedContext || s.stage == Stage::NeedReaders) ==> s.attempts_remaining
        == MAX_ATTEMPTS
    &&& (s.stage == Stage::NeedConnect || s.stage == Stage::NeedResponse) ==> (s.current
        < s.readers.len() && s.attempts_remaining >= 1 && s.current + 1 + s.attempts_remaining
        == MAX_ATTEMPTS)
}

/// The attempt ends for `reason`.
pub open spec fn spec_finish(s: SessionModel, reason: StopReason) -> (SessionModel, ActionModel) {
    (
        SessionModel {
            stage: Stage::Finished(reason),
            attempts_remaining: s.attempts_remaining,
            readers: s.readers,
            current: s.current,
        },
        ActionModel::Finish(reason.spec_decision(), reason),
    )
}

/// Moves on to the reader at `next`: draws on the attempt counter, gives up
/// if that empties it, stops if no reader is left, and else asks for a
/// connection to that reader.
pub open spec fn spec_advance(s: SessionModel, next: nat) -> (SessionModel, ActionModel) {
    if s.attempts_remaining <= 1 {
        spec_finish(
            SessionModel {
                stage: s.stage,
                attempts_remaining: 0,
                readers: s.readers,
                current: s.current,
            },
            StopReason::BudgetExhausted,
        )
    } else if next >= s.readers.len() {
        spec_finish(
            SessionModel {
                stage: s.stage,
                attempts_remaining: (s.attempts_remaining - 1) as nat,
                readers: s.readers,
                current: s.current,
            },
            StopReason::NoMoreReaders,
        )
    } else {
        (
            SessionModel {
                stage: Stage::NeedConnect,
                attempts_remaining: (s.attempts_remaining - 1) as nat,
                readers: s.readers,
                current: next,
            },
            ActionModel::Connect(s.readers[next as int]),
        )
    }
}

/// The state and the action that follow when `event` is reported in state `s`.
pub open spec fn spec_step(s: SessionModel, event: Event) -> (SessionModel, ActionModel) {
    match s.stage {
        Stage::NeedContext => match event {
            Event::ContextEstablished => (
                SessionModel {
                    stage: Stage::NeedReaders,
                    attempts_remaining: s.attempts_remaining,
                    readers: s.readers,
                    current: s.current,
                },
                ActionModel::ListReaders,
            ),
            Event::ContextFailed { .. } => spec_finish(
                s,
                StopReason::Failed(CardError::ContextUnavailable),
            ),
            _ => spec_finish(s, StopReason::OutOfTurn),
        },
        Stage::NeedReaders => match event {
            Event::ReadersListed { names } => if names@.len() == 0 {
                spec_finish(s, StopReason::NoReaders)
            } else {
                spec_advance(
                    SessionModel {
                        stage: s.stage,
                        attempts_remaining: s.attempts_remaining,
                        readers: spec_names(names@),
                        current: 0,
                    },
                    0,
                )
            },
            Event::ListFailed { .. } => spec_finish(
                s,
                StopReason::Failed(CardError::EnumerationFailed),
            ),
            _ => spec_finish(s, StopReason::OutOfTurn),
        },
        Stage::NeedConnect => match event {
            Event::Connected => (
                SessionModel {
                    stage: Stage::NeedResponse,
                    attempts_remaining: s.attempts_remaining,
                    readers: s.readers,
                    current: s.current,
                },
                ActionModel::Transmit(spec_probe_bytes()),
            ),
            Event::ConnectFailed { code } => spec_finish(
                s,
                StopReason::Failed(spec_connect_error(code)),
            ),
            _ => spec_finish(s, StopReason::OutOfTurn),
        },
        Stage::NeedResponse => match event {
            Event::Response { bytes } => if bytes@.len() > RESPONSE_CAPACITY {
                spec_finish(s, StopReason::Failed(CardError::ResponseTooLarge))
            } else if !spec_empty_body(bytes@) {
                spec_finish(s, StopReason::DataReturned)
            } else {
                spec_advance(s, s.current + 1)
            },
            Event::TransmitFailed { code } => spec_finish(
                s,
                StopReason::Failed(spec_transmit_error(code)),
            ),
            _ => spec_finish(s, StopReason::OutOfTurn),
        },
        Stage::Finished(reason) => (s, ActionModel::Finish(reason.spec_decision(), reason)),
    }
}

/// One authentication attempt in progress.
#[derive(Debug)]
pub struct Session {
    stage: Stage,
    attempts_remaining: u32,
    readers: Vec<ReaderName>,
    current: usize,
}

impl View for Session {
    type V = SessionModel;

    closed spec fn view(&self) -> SessionModel {
        SessionModel {
            stage: self.stage,
            attempts_remaining: self.attempts_remaining as nat,
            readers: spec_names(self.readers@),
            current: self.current as nat,
        }
    }
}

impl Session {
    #[verifier::type_invariant]
    spec fn valid(self) -> bool {
        spec_valid(self@)
    }

    /// A fresh attempt, and the first thing to do.
    pub fn begin() -> (start: (Session, Action))
        ensures
            start.0@ == spec_initial(),
            start.1@ == ActionModel::EstablishContext,
            spec_valid(start.0@),
    {
        let session = Session {
            stage: Stage::NeedContext,
            attempts_remaining: MAX_ATTEMPTS,
            readers: Vec::new(),
            current: 0,
        };
        assert(spec_names(session.readers@) =~= Seq::<Seq<u8>>::empty());
        (session, Action::EstablishContext)
    }

    /// What the machine is waiting to hear.
    pub fn stage(&self) -> (s: Stage)
        ensures
            s == self@.stage,
            spec_valid(self@),
    {
        proof {
            use_type_invariant(self);
        }
        self.stage
    }

    /// What is left of the attempt counter.
    pub fn attempts_remaining(&self) -> (n: u32)
        ensures
            n == self@.attempts_remaining,
            n <= MAX_ATTEMPTS,
    {
        proof {
            use_type_invariant(self);
        }
        self.attempts_remaining
    }

    /// How often the attempt counter has been drawn on.
    pub fn attempts_made(&self) -> (n: u32)
        ensures
            n == MAX_ATTEMPTS - self@.attempts_remaining,
    {
        proof {
            use_type_invariant(self);
        }
        MAX_ATTEMPTS - self.attempts_remaining
    }

    /// The decision, once the attempt is over.
    pub fn decision(&self) -> (d: Option<AuthDecision>)
        ensures
            d == match self@.stage {
                Stage::Finished(reason) => Some(reason.spec_decision()),
                _ => None,
            },
    {
        match self.stage {
            Stage::Finished(reason) => Some(reason.decision()),
            _ => None,
        }
    }

    fn finish(
        remaining: u32,
        readers: Vec<ReaderName>,
        current: usize,
        reason: StopReason,
    ) -> (next: (Session, Action))
        requires
            remaining <= MAX_ATTEMPTS,
        ensures
            next.0@ == (SessionModel {
                stage: Stage::Finished(reason),
                attempts_remaining: remaining as nat,
                readers: spec_names(readers@),
                current: current as nat,
            }),
            next.1@ == ActionModel::Finish(reason.spec_decision(), reason),
            spec_valid(next.0@),
    {
        let session = Session {
            stage: Stage::Finished(reason),
            attempts_remaining: remaining,
            readers,
            current,
        };
        (session, Action::Finish { decision: reason.decision(), reason })
    }

    fn advance(
        stage: Ghost<Stage>,
        remaining: u32,
        readers: Vec<ReaderName>,
        current: usize,
        next: usize,
    ) -> (after: (Session, Action))
        requires
            remaining <= MAX_ATTEMPTS,
            next + remaining == MAX_ATTEMPTS,
        ensures
            (after.0@, after.1@) == spec_advance(
                SessionModel {
                    stage: stage@,
                    attempts_remaining: remaining as nat,
                    readers: spec_names(readers@),
                    current: current as nat,
                },
                next as nat,
            ),
            spec_valid(after.0@),
    {
        if remaining <= 1 {
            Session::finish(0, readers, current, StopReason::BudgetExhausted)
        } else if next >= readers.len() {
            Session::finish(remaining - 1, readers, current, StopReason::NoMoreReaders)
        } else {
            let reader: ReaderName = readers[next].duplicate();
            let session = Session {
                stage: Stage::NeedConnect,
                attempts_remaining: remaining - 1,
                readers,
                current: next,
            };
            (session, Action::Connect { reader })
        }
    }

    /// Takes what the host reports and says what to do next. An event that
    /// was not asked for ends the attempt; once the attempt is over every
    /// event is answered with the same `Finish`.
    pub fn step(self, event: Event) -> (next: (Session, Action))
        ensures
            (next.0@, next.1@) == spec_step(self@, event),
            spec_valid(self@),
            spec_valid(next.0@),
    {
        proof {
            use_type_invariant(&self);
        }
        let Session { stage, attempts_remaining: left, readers, current } = self;
        match stage {
            Stage::NeedContext => match event {
                Event::ContextEstablished => {
                    let session = Session {
                        stage: Stage::NeedReaders,
                        attempts_remaining: left,
                        readers,
                        current,
                    };
                    (session, Action::ListReaders)
                },
                Event::ContextFailed { .. } => Session::finish(
                    left,
                    readers,
                    current,
                    StopReason::Failed(CardError::ContextUnavailable),
                ),
                _ => Session::finish(left, readers, current, StopReason::OutOfTurn),
            },
            Stage::NeedReaders => match event {
                Event::ReadersListed { names } => {
                    if names.len() == 0 {
                        Session::finish(left, readers, current, StopReason::NoReaders)
                    } else {
                        Session::advance(Ghost(stage), left, names, 0, 0)
                    }
                },
                Event::ListFailed { .. } => Session::finish(
                    left,
                    readers,
                    current,
                    StopReason::Failed(CardError::EnumerationFailed),
                ),
                _ => Session::finish(left, readers, current, StopReason::OutOfTurn),
            },
            Stage::NeedConnect => match event {
                Event::Connected => {
                    let session = Session {
                        stage: Stage::NeedResponse,
                        attempts_remaining: left,
                        readers,
                        current,
                    };
                    (session, Action::Transmit { command: ApduCommand::probe() })
                },
                Event::ConnectFailed { code } => {
                    let reason = StopReason::Failed(connect_error(code));
                    Session::finish(left, readers, current, reason)
                },
                _ => Session::finish(left, readers, current, StopReason::OutOfTurn),
            },
            Stage::NeedResponse => match event {
                Event::Response { bytes } => {
                    if bytes.len() > RESPONSE_CAPACITY {
                        Session::finish(
                            left,
                            readers,
                            current,
                            StopReason::Failed(CardError::ResponseTooLarge),
                        )
                    } else if bytes.len() > 2 {
                        Session::finish(left, readers, current, StopReason::DataReturned)
                    } else {
                        let listed: usize = readers.len();
                        assert(current < spec_names(readers@).len() == listed);
                        let next: usize = current + 1;
                        Session::advance(Ghost(stage), left, readers, current, next)
                    }
                },
                Event::TransmitFailed { code } => {
                    let reason = StopReason::Failed(transmit_error(code));
                    Session::finish(left, readers, current, reason)
                },
                _ => Session::finish(left, readers, current, StopReason::OutOfTurn),
            },
            Stage::Finished(reason) => {
                let session = Session { stage, attempts_remaining: left, readers, current };
                (session, Action::Finish { decision: reason.decision(), reason })
            },
        }
    }
}

} // verus!

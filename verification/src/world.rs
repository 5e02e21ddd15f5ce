//! A recorded card service, and the attempt run against it from start to end.

use vstd::prelude::*;
use crate::apdu::{spec_empty_body, RESPONSE_CAPACITY};
use crate::decision::AuthDecision;
use crate::error::{
    spec_connect_error, spec_transmit_error, CardError, StopReason, UNKNOWN_READER,
};
use crate::reader::{spec_names, ReaderName};
use crate::session::{
    spec_initial, spec_valid, Action, ActionModel, Event, Session, SessionModel, Stage,
    MAX_ATTEMPTS,
};

verus! {

/// What one reader answers: to a connect, and to the probe once connected.
/// An `Err` holds the platform's code.
#[derive(Debug)]
pub struct ReaderSlot {
    pub name: ReaderName,
    pub connect: Result<(), u32>,
    pub probe: Result<Vec<u8>, u32>,
}

/// What the card service answers: to the opening of a session, and to the
/// listing of its readers. An `Err` holds the platform's code.
#[derive(Debug)]
pub struct CardWorld {
    pub context: Result<(), u32>,
    pub readers: Result<Vec<ReaderSlot>, u32>,
}

/// How often each kind of operation was performed.
pub struct Tally {
    /// Draws on the attempt counter.
    pub attempts: nat,
    pub listings: nat,
    pub connects: nat,
    pub transmits: nat,
}

/// How an attempt ended, as plain values.
pub struct ReportModel {
    pub reason: StopReason,
    pub tally: Tally,
}

/// How an attempt ended, and what it took.
#[derive(Clone, Copy, Debug, PartialEq, Eq, Structural)]
pub struct Report {
    pub reason: StopReason,
    /// Draws on the attempt counter.
    pub attempts: u32,
    pub listings: u32,
    pub connects: u32,
    pub transmits: u32,
}

impl View for Report {
    type V = ReportModel;

    open spec fn view(&self) -> ReportModel {
        ReportModel {
            reason: self.reason,
            tally: Tally {
                attempts: self.attempts as nat,
                listings: self.listings as nat,
                connects: self.connects as nat,
                transmits: self.transmits as nat,
            },
        }
    }
}

impl ReportModel {
    /// The decision the host is given.
    pub open spec fn decision(self) -> AuthDecision {
        self.reason.spec_decision()
    }
}

impl Report {
    /// The decision the host is given.
    pub fn decision(&self) -> (d: AuthDecision)
        ensures
            d == self@.decision(),
            d == AuthDecision::InfoUnavailable,
    {
        self.reason.decision()
    }

    /// The integer the host is given.
    pub fn code(&self) -> (c: i32)
        ensures
            c == self@.decision().spec_code(),
            c == 12,
    {
        self.reason.decision().code()
    }
}

/// The names of the readers in `slots`, in their order.
pub open spec fn spec_slot_names(slots: Seq<ReaderSlot>) -> Seq<Seq<u8>> {
    Seq::new(slots.len(), |i: int| slots[i].name@)
}

/// The attempt stops for `reason` with `t` on the tally.
pub open spec fn spec_stop(reason: StopReason, t: Tally) -> ReportModel {
    ReportModel { reason, tally: t }
}

/// The policy from the top of its loop, about to try the reader at `i` with
/// `remaining` left on the attempt counter: draws on the counter and gives up
/// if that empties it, stops if no reader is left, and else connects.
pub open spec fn spec_attempt(slots: Seq<ReaderSlot>, i: nat, remaining: nat, t: Tally) -> ReportModel
    decreases remaining, 0nat,
{
    let drawn = Tally {
        attempts: t.attempts + 1,
        listings: t.listings,
        connects: t.connects,
        transmits: t.transmits,
    };
    if remaining <= 1 {
        spec_stop(StopReason::BudgetExhausted, drawn)
    } else if i >= slots.len() {
        spec_stop(StopReason::NoMoreReaders, drawn)
    } else {
        spec_connect(slots, i, (remaining - 1) as nat, drawn)
    }
}

/// The policy from the connect to the reader at `i`: a refused connect stops
/// the attempt, an open connection is probed.
pub open spec fn spec_connect(slots: Seq<ReaderSlot>, i: nat, remaining: nat, t: Tally) -> ReportModel
    decreases remaining, 2nat,
{
    let connected = Tally {
        attempts: t.attempts,
        listings: t.listings,
        connects: t.connects + 1,
        transmits: t.transmits,
    };
    match slots[i as int].connect {
        Err(code) => spec_stop(StopReason::Failed(spec_connect_error(code)), connected),
        Ok(_) => spec_exchange(slots, i, remaining, connected),
    }
}

/// The policy from the probe of the reader at `i`: a failed exchange, an
/// oversized answer or an answer with data stops the attempt, an answer
/// without data sends the policy on to the next reader.
pub open spec fn spec_exchange(slots: Seq<ReaderSlot>, i: nat, remaining: nat, t: Tally) -> ReportModel
    decreases remaining, 1nat,
{
    let sent = Tally {
        attempts: t.attempts,
        listings: t.listings,
        connects: t.connects,
        transmits: t.transmits + 1,
    };
    match slots[i as int].probe {
        Err(code) => spec_stop(StopReason::Failed(spec_transmit_error(code)), sent),
        Ok(bytes) => if bytes@.len() > RESPONSE_CAPACITY {
            spec_stop(StopReason::Failed(CardError::ResponseTooLarge), sent)
        } else if !spec_empty_body(bytes@) {
            spec_stop(StopReason::DataReturned, sent)
        } else {
            spec_attempt(slots, i + 1, remaining, sent)
        },
    }
}

/// How an attempt against `world` ends: without a session or without a
/// listing it stops at once, with no reader listed likewise, and else the
/// policy runs over the readers from the first.
pub open spec fn spec_authenticate(world: CardWorld) -> ReportModel {
    let nothing = Tally { attempts: 0, listings: 0, connects: 0, transmits: 0 };
    let listed = Tally { attempts: 0, listings: 1, connects: 0, transmits: 0 };
    match world.context {
        Err(_) => spec_stop(StopReason::Failed(CardError::ContextUnavailable), nothing),
        Ok(_) => match world.readers {
            Err(_) => spec_stop(StopReason::Failed(CardError::EnumerationFailed), listed),
            Ok(slots) => if slots@.len() == 0 {
                spec_stop(StopReason::NoReaders, listed)
            } else {
                spec_attempt(slots@, 0, MAX_ATTEMPTS as nat, listed)
            },
        },
    }
}

/// Whether an attempt against `world` that has come to state `s` with
/// `action` to perform, after the operations counted, ends as the world's
/// policy says.
spec fn spec_on_course(
    world: CardWorld,
    s: SessionModel,
    action: ActionModel,
    listings: nat,
    connects: nat,
    transmits: nat,
) -> bool {
    let slots = world.spec_slots();
    let t = Tally {
        attempts: (MAX_ATTEMPTS - s.attempts_remaining) as nat,
        listings,
        connects,
        transmits,
    };
    &&& spec_valid(s)
    &&& match action {
        ActionModel::EstablishContext => s == spec_initial() && listings == 0 && connects == 0
            && transmits == 0,
        ActionModel::ListReaders => s.stage == Stage::NeedReaders && world.context.is_ok()
            && listings == 0 && connects == 0 && transmits == 0,
        ActionModel::Connect(_) => {
            &&& s.stage == Stage::NeedConnect
            &&& world.context.is_ok()
            &&& world.readers.is_ok()
            &&& s.readers == spec_slot_names(slots)
            &&& listings == 1
            &&& connects == s.current
            &&& transmits == s.current
            &&& spec_authenticate(world) == spec_connect(slots, s.current, s.attempts_remaining, t)
        },
        ActionModel::Transmit(_) => {
            &&& s.stage == Stage::NeedResponse
            &&& world.context.is_ok()
            &&& world.readers.is_ok()
            &&& s.readers == spec_slot_names(slots)
            &&& listings == 1
            &&& connects == s.current + 1
            &&& transmits == s.current
            &&& spec_authenticate(world) == spec_exchange(
                slots,
                s.current,
                s.attempts_remaining,
                t,
            )
        },
        ActionModel::Finish(_, reason) => {
            &&& listings <= 1
            &&& connects <= MAX_ATTEMPTS
            &&& transmits <= MAX_ATTEMPTS
            &&& spec_authenticate(world) == spec_stop(reason, t)
        },
    }
}

/// How far the attempt is from its end at most.
spec fn spec_distance(s: SessionModel) -> nat {
    match s.stage {
        Stage::NeedContext => 2 * MAX_ATTEMPTS as nat + 4,
        Stage::NeedReaders => 2 * MAX_ATTEMPTS as nat + 3,
        Stage::NeedConnect => 2 * s.attempts_remaining + 2,
        Stage::NeedResponse => 2 * s.attempts_remaining + 1,
        Stage::Finished(_) => 0,
    }
}

impl CardWorld {
    /// The readers of this world; none where they cannot be listed.
    pub open spec fn spec_slots(self) -> Seq<ReaderSlot> {
        match self.readers {
            Ok(slots) => slots@,
            Err(_) => Seq::empty(),
        }
    }

    /// A world without a card service.
    pub fn unreachable(code: u32) -> (w: CardWorld)
        ensures
            w.context == Err::<(), u32>(code),
            w.readers == Err::<Vec<ReaderSlot>, u32>(code),
    {
        CardWorld { context: Err(code), readers: Err(code) }
    }

    /// A world with a card service and these readers.
    pub fn with_readers(slots: Vec<ReaderSlot>) -> (w: CardWorld)
        ensures
            w.context == Ok::<(), u32>(()),
            w.readers == Ok::<Vec<ReaderSlot>, u32>(slots),
    {
        CardWorld { context: Ok(()), readers: Ok(slots) }
    }

    fn establish(&self) -> (e: Event)
        ensures
            match self.context {
                Ok(_) => e == Event::ContextEstablished,
                Err(code) => e == (Event::ContextFailed { code }),
            },
    {
        match self.context {
            Ok(_) => Event::ContextEstablished,
            Err(code) => Event::ContextFailed { code },
        }
    }

    fn list(&self) -> (e: Event)
        ensures
            match self.readers {
                Ok(slots) => e matches Event::ReadersListed { names } && spec_names(names@)
                    == spec_slot_names(slots@),
                Err(code) => e == (Event::ListFailed { code }),
            },
    {
        match &self.readers {
            Ok(slots) => {
                let mut names: Vec<ReaderName> = Vec::new();
                let mut i: usize = 0;
                while i < slots.len()
                    invariant
                        i <= slots@.len(),
                        names@.len() == i,
                        forall|k: int| 0 <= k < i ==> (#[trigger] names@[k])@ == slots@[k].name@,
                    decreases slots@.len() - i,
                {
                    names.push(slots[i].name.duplicate());
                    i = i + 1;
                }
                assert(spec_names(names@) =~= spec_slot_names(slots@));
                Event::ReadersListed { names }
            },
            Err(code) => Event::ListFailed { code: *code },
        }
    }

    fn connect(&self, i: usize) -> (e: Event)
        ensures
            i < self.spec_slots().len() ==> match self.spec_slots()[i as int].connect {
                Ok(_) => e == Event::Connected,
                Err(code) => e == (Event::ConnectFailed { code }),
            },
            i >= self.spec_slots().len() ==> e == (Event::ConnectFailed { code: UNKNOWN_READER }),
    {
        match &self.readers {
            Ok(slots) => {
                if i < slots.len() {
                    match slots[i].connect {
                        Ok(_) => Event::Connected,
                        Err(code) => Event::ConnectFailed { code },
                    }
                } else {
                    Event::ConnectFailed { code: UNKNOWN_READER }
                }
            },
            Err(_) => Event::ConnectFailed { code: UNKNOWN_READER },
        }
    }

    fn transmit(&self, i: usize) -> (e: Event)
        ensures
            i < self.spec_slots().len() ==> match self.spec_slots()[i as int].probe {
                Ok(bytes) => e matches Event::Response { bytes: sent } && sent@ == bytes@,
                Err(code) => e == (Event::TransmitFailed { code }),
            },
            i >= self.spec_slots().len() ==> e == (Event::TransmitFailed { code: UNKNOWN_READER }),
    {
        match &self.readers {
            Ok(slots) => {
                if i < slots.len() {
                    match &slots[i].probe {
                        Ok(bytes) => Event::Response { bytes: bytes.clone() },
                        Err(code) => Event::TransmitFailed { code: *code },
                    }
                } else {
                    Event::TransmitFailed { code: UNKNOWN_READER }
                }
            },
            Err(_) => Event::TransmitFailed { code: UNKNOWN_READER },
        }
    }
}

/// Runs one attempt against `world`: performs each action the machine asks
/// for, reports what the world answers, and returns how the attempt ended.
pub fn authenticate_in(world: &CardWorld) -> (report: Report)
    ensures
        report@ == spec_authenticate(*world),
{
    let (first, start) = Session::begin();
    let mut session: Session = first;
    let mut action: Action = start;
    let mut listings: u32 = 0;
    let mut connects: u32 = 0;
    let mut transmits: u32 = 0;
    loop
        invariant
            spec_on_course(
                *world,
                session@,
                action@,
                listings as nat,
                connects as nat,
                transmits as nat,
            ),
            !(action@ is Finish) ==> !(session@.stage is Finished),
        decreases spec_distance(session@),
    {
        let event: Event = match action {
            Action::EstablishContext => world.establish(),
            Action::ListReaders => {
                listings = listings + 1;
                world.list()
            },
            Action::Connect { reader: _reader } => {
                let at: u32 = connects;
                connects = connects + 1;
                world.connect(at as usize)
            },
            Action::Transmit { command: _command } => {
                let at: u32 = transmits;
                transmits = transmits + 1;
                world.transmit(at as usize)
            },
            Action::Finish { decision: _decision, reason } => {
                return Report {
                    reason,
                    attempts: session.attempts_made(),
                    listings,
                    connects,
                    transmits,
                };
            },
        };
        let (after, next) = session.step(event);
        session = after;
        action = next;
    }
}

} // verus!

//! What holds of every attempt, whatever the card service answers.

use vstd::prelude::*;
use crate::apdu::{spec_body, spec_empty_body, spec_probe_bytes, RESPONSE_CAPACITY};
use crate::decision::AuthDecision;
use crate::error::{spec_connect_error, spec_transmit_error, CardError, StopReason, NO_SMARTCARD};
use crate::session::{
    spec_advance, spec_initial, spec_step, spec_valid, ActionModel, Event, SessionModel, Stage,
    MAX_ATTEMPTS,
};
use crate::world::{
    spec_attempt, spec_authenticate, spec_connect, spec_exchange, CardWorld, ReaderSlot, Tally,
};

verus! {

/// A reader whose card can be opened and answers the probe without data.
pub open spec fn spec_quiet(slot: ReaderSlot) -> bool {
    &&& slot.connect.is_ok()
    &&& slot.probe matches Ok(bytes) && spec_empty_body(bytes@)
}

/// Whether the first `k` readers of `slots` are all quiet.
pub open spec fn spec_quiet_prefix(slots: Seq<ReaderSlot>, k: nat) -> bool {
    &&& k <= slots.len()
    &&& forall|j: int| 0 <= j < k ==> spec_quiet(#[trigger] slots[j])
}

/// The tally after one listing and `k` quiet readers.
pub open spec fn spec_tally_after(k: nat) -> Tally {
    Tally { attempts: k, listings: 1, connects: k, transmits: k }
}

/// No attempt grants access: whatever the card service answers, the decision
/// is "information unavailable", code 12.
pub proof fn lemma_never_success(world: CardWorld)
    ensures
        spec_authenticate(world).decision() == AuthDecision::InfoUnavailable,
        spec_authenticate(world).decision() != AuthDecision::Success,
        spec_authenticate(world).decision().spec_code() == 12,
{
}

/// The machine never tells the host to grant access: every `Finish` it
/// gives carries "information unavailable".
pub proof fn lemma_step_never_grants(s: SessionModel, event: Event)
    ensures
        spec_step(s, event).1 matches ActionModel::Finish(decision, _) ==> decision
            == AuthDecision::InfoUnavailable,
{
}

/// Once an attempt is over it stays over: every further report is answered
/// with the same `Finish`, never with an action on the card service.
pub proof fn lemma_finished_is_final(s: SessionModel, event: Event)
    requires
        s.stage is Finished,
    ensures
        spec_step(s, event).0 == s,
        !spec_step(s, event).1.is_hardware(),
        spec_step(s, event).1 == ActionModel::Finish(
            AuthDecision::InfoUnavailable,
            s.stage->Finished_0,
        ),
{
}

/// A card connection is open only while the machine waits for the card's
/// answer: `Transmit` is the one action given in that state, and it is given
/// in no other. Every connect and every finish is asked for with the last
/// connection closed.
pub proof fn lemma_card_open_only_during_exchange(s: SessionModel, event: Event)
    ensures
        spec_step(s, event).1 is Transmit <==> spec_step(s, event).0.stage == Stage::NeedResponse,
        spec_step(s, event).1 is Connect ==> spec_step(s, event).0.stage == Stage::NeedConnect,
        spec_step(s, event).1 is Finish <==> spec_step(s, event).0.stage is Finished,
{
}

/// Every state the machine reaches from a valid one is valid.
pub proof fn lemma_step_keeps_valid(s: SessionModel, event: Event)
    requires
        spec_valid(s),
    ensures
        spec_valid(spec_step(s, event).0),
{
}

/// Where the card service cannot be reached the attempt ends at once with
/// "information unavailable": no listing, no connect and no exchange is made.
pub proof fn lemma_context_failure_stops(world: CardWorld)
    requires
        world.context.is_err(),
    ensures
        spec_authenticate(world).reason == StopReason::Failed(CardError::ContextUnavailable),
        spec_authenticate(world).decision() == AuthDecision::InfoUnavailable,
        spec_authenticate(world).tally.attempts == 0,
        spec_authenticate(world).tally.listings == 0,
        spec_authenticate(world).tally.connects == 0,
        spec_authenticate(world).tally.transmits == 0,
{
}

/// Told that the card service cannot be reached, the machine asks for
/// nothing more: it finishes, from the first state.
pub proof fn lemma_context_failure_finishes(code: u32)
    ensures
        spec_step(spec_initial(), Event::ContextFailed { code }).1 == ActionModel::Finish(
            AuthDecision::InfoUnavailable,
            StopReason::Failed(CardError::ContextUnavailable),
        ),
        spec_step(spec_initial(), Event::ContextFailed { code }).0.stage is Finished,
{
}

/// Where the readers cannot be listed the attempt ends with "information
/// unavailable" after that one listing: no connect and no exchange is made.
pub proof fn lemma_listing_failure_stops(world: CardWorld)
    requires
        world.context.is_ok(),
        world.readers.is_err(),
    ensures
        spec_authenticate(world).reason == StopReason::Failed(CardError::EnumerationFailed),
        spec_authenticate(world).decision() == AuthDecision::InfoUnavailable,
        spec_authenticate(world).tally.connects == 0,
        spec_authenticate(world).tally.transmits == 0,
{
}

/// Where no reader is attached the attempt ends with "information
/// unavailable": no connect and no exchange is made.
pub proof fn lemma_no_readers_stops(world: CardWorld)
    requires
        world.context.is_ok(),
        world.readers matches Ok(slots) && slots@.len() == 0,
    ensures
        spec_authenticate(world).reason == StopReason::NoReaders,
        spec_authenticate(world).decision() == AuthDecision::InfoUnavailable,
        spec_authenticate(world).tally.attempts == 0,
        spec_authenticate(world).tally.connects == 0,
        spec_authenticate(world).tally.transmits == 0,
{
}

/// Past `k` quiet readers the policy stands at the top of its loop before
/// reader `k`, with `k` drawn from the attempt counter and one connect and
/// one exchange made for each of them.
pub proof fn lemma_quiet_readers_are_passed(slots: Seq<ReaderSlot>, k: nat)
    requires
        spec_quiet_prefix(slots, k),
        k < MAX_ATTEMPTS,
    ensures
        spec_attempt(slots, 0, MAX_ATTEMPTS as nat, spec_tally_after(0)) == spec_attempt(
            slots,
            k,
            (MAX_ATTEMPTS - k) as nat,
            spec_tally_after(k),
        ),
    decreases k,
{
    if k > 0 {
        let j = (k - 1) as nat;
        lemma_quiet_readers_are_passed(slots, j);
        assert(spec_quiet(slots[j as int]));
        let left = (MAX_ATTEMPTS - j) as nat;
        let drawn = Tally { attempts: j + 1, listings: 1, connects: j, transmits: j };
        let connected = Tally { attempts: j + 1, listings: 1, connects: j + 1, transmits: j };
        assert(spec_attempt(slots, j, left, spec_tally_after(j)) == spec_connect(
            slots,
            j,
            (left - 1) as nat,
            drawn,
        ));
        assert(spec_connect(slots, j, (left - 1) as nat, drawn) == spec_exchange(
            slots,
            j,
            (left - 1) as nat,
            connected,
        ));
        assert(spec_exchange(slots, j, (left - 1) as nat, connected) == spec_attempt(
            slots,
            k,
            (left - 1) as nat,
            spec_tally_after(k),
        ));
    }
}

/// A refused connect ends the attempt: where reader `i` follows only quiet
/// readers and its connect is refused, the attempt stops there with
/// "information unavailable", and no later reader is tried. A reader without
/// a card stops it as "no card present".
pub proof fn lemma_connect_failure_stops(world: CardWorld, i: nat)
    requires
        world.context.is_ok(),
        world.readers.is_ok(),
        i < world.spec_slots().len(),
        i + 1 < MAX_ATTEMPTS,
        spec_quiet_prefix(world.spec_slots(), i),
        world.spec_slots()[i as int].connect.is_err(),
    ensures
        spec_authenticate(world).reason == StopReason::Failed(
            spec_connect_error(world.spec_slots()[i as int].connect->Err_0),
        ),
        world.spec_slots()[i as int].connect == Err::<(), u32>(NO_SMARTCARD) ==> spec_authenticate(
            world,
        ).reason == StopReason::Failed(CardError::NoCardPresent),
        spec_authenticate(world).decision() == AuthDecision::InfoUnavailable,
        spec_authenticate(world).tally.attempts == i + 1,
        spec_authenticate(world).tally.connects == i + 1,
        spec_authenticate(world).tally.transmits == i,
{
    let slots = world.spec_slots();
    lemma_quiet_readers_are_passed(slots, i);
    let drawn = Tally { attempts: i + 1, listings: 1, connects: i, transmits: i };
    assert(spec_attempt(slots, i, (MAX_ATTEMPTS - i) as nat, spec_tally_after(i)) == spec_connect(
        slots,
        i,
        (MAX_ATTEMPTS - i - 1) as nat,
        drawn,
    ));
}

/// A failed exchange ends the attempt: where reader `i` follows only quiet
/// readers, its card is opened and the exchange fails, the attempt stops
/// there with "information unavailable".
pub proof fn lemma_transmit_failure_stops(world: CardWorld, i: nat)
    requires
        world.context.is_ok(),
        world.readers.is_ok(),
        i < world.spec_slots().len(),
        i + 1 < MAX_ATTEMPTS,
        spec_quiet_prefix(world.spec_slots(), i),
        world.spec_slots()[i as int].connect.is_ok(),
        world.spec_slots()[i as int].probe.is_err(),
    ensures
        spec_authenticate(world).reason == StopReason::Failed(
            spec_transmit_error(world.spec_slots()[i as int].probe->Err_0),
        ),
        spec_authenticate(world).decision() == AuthDecision::InfoUnavailable,
        spec_authenticate(world).tally.attempts == i + 1,
        spec_authenticate(world).tally.connects == i + 1,
        spec_authenticate(world).tally.transmits == i + 1,
{
    let slots = world.spec_slots();
    lemma_quiet_readers_are_passed(slots, i);
    let left = (MAX_ATTEMPTS - i - 1) as nat;
    let drawn = Tally { attempts: i + 1, listings: 1, connects: i, transmits: i };
    let connected = Tally { attempts: i + 1, listings: 1, connects: i + 1, transmits: i };
    assert(spec_attempt(slots, i, (MAX_ATTEMPTS - i) as nat, spec_tally_after(i)) == spec_connect(
        slots,
        i,
        left,
        drawn,
    ));
    assert(spec_connect(slots, i, left, drawn) == spec_exchange(slots, i, left, connected));
}

/// An answer with data ends the attempt: where reader `i` follows only quiet
/// readers and its card answers the probe with at least one byte before the
/// status word, the attempt stops there with "information unavailable",
/// never with success. An answer larger than the receive buffer is refused
/// as such.
pub proof fn lemma_data_stops(world: CardWorld, i: nat)
    requires
        world.context.is_ok(),
        world.readers.is_ok(),
        i < world.spec_slots().len(),
        i + 1 < MAX_ATTEMPTS,
        spec_quiet_prefix(world.spec_slots(), i),
        world.spec_slots()[i as int].connect.is_ok(),
        world.spec_slots()[i as int].probe matches Ok(bytes) && spec_body(bytes@).len() > 0,
    ensures
        spec_authenticate(world).reason == if world.spec_slots()[i as int].probe->Ok_0@.len()
            > RESPONSE_CAPACITY {
            StopReason::Failed(CardError::ResponseTooLarge)
        } else {
            StopReason::DataReturned
        },
        spec_authenticate(world).decision() == AuthDecision::InfoUnavailable,
        spec_authenticate(world).decision() != AuthDecision::Success,
        spec_authenticate(world).tally.attempts == i + 1,
        spec_authenticate(world).tally.connects == i + 1,
        spec_authenticate(world).tally.transmits == i + 1,
{
    let slots = world.spec_slots();
    lemma_quiet_readers_are_passed(slots, i);
    let left = (MAX_ATTEMPTS - i - 1) as nat;
    let drawn = Tally { attempts: i + 1, listings: 1, connects: i, transmits: i };
    let connected = Tally { attempts: i + 1, listings: 1, connects: i + 1, transmits: i };
    assert(spec_attempt(slots, i, (MAX_ATTEMPTS - i) as nat, spec_tally_after(i)) == spec_connect(
        slots,
        i,
        left,
        drawn,
    ));
    assert(spec_connect(slots, i, left, drawn) == spec_exchange(slots, i, left, connected));
}

/// An answer without data sends the policy on: after the exchange with
/// reader `i` it stands at the top of its loop before reader `i + 1`.
pub proof fn lemma_quiet_answer_advances(slots: Seq<ReaderSlot>, i: nat, remaining: nat, t: Tally)
    requires
        i < slots.len(),
        slots[i as int].probe matches Ok(bytes) && spec_body(bytes@).len() == 0,
    ensures
        spec_exchange(slots, i, remaining, t) == spec_attempt(
            slots,
            i + 1,
            remaining,
            Tally {
                attempts: t.attempts,
                listings: t.listings,
                connects: t.connects,
                transmits: t.transmits + 1,
            },
        ),
{
}

/// Told of an answer without data, the machine moves on to the next reader:
/// it asks for a connect to it where one is left and the attempt counter
/// allows, and finishes otherwise.
pub proof fn lemma_step_on_quiet_answer(s: SessionModel, bytes: Vec<u8>)
    requires
        spec_valid(s),
        s.stage == Stage::NeedResponse,
        spec_body(bytes@).len() == 0,
    ensures
        spec_step(s, Event::Response { bytes }) == spec_advance(s, s.current + 1),
        (s.attempts_remaining >= 2 && s.current + 1 < s.readers.len()) ==> spec_step(
            s,
            Event::Response { bytes },
        ).1 == ActionModel::Connect(s.readers[s.current as int + 1]),
        s.attempts_remaining < 2 ==> spec_step(s, Event::Response { bytes }).1
            == ActionModel::Finish(AuthDecision::InfoUnavailable, StopReason::BudgetExhausted),
        (s.attempts_remaining >= 2 && s.current + 1 >= s.readers.len()) ==> spec_step(
            s,
            Event::Response { bytes },
        ).1 == ActionModel::Finish(AuthDecision::InfoUnavailable, StopReason::NoMoreReaders),
{
}

/// Told that a connection is open, the machine asks for the probe to be
/// sent: the bytes `00 CA 00 6E`.
pub proof fn lemma_step_on_connected(s: SessionModel)
    requires
        s.stage == Stage::NeedConnect,
    ensures
        spec_step(s, Event::Connected).1 == ActionModel::Transmit(spec_probe_bytes()),
        spec_probe_bytes() == seq![0x00u8, 0xCAu8, 0x00u8, 0x6Eu8],
{
}

/// The retry bound holds: where the first nine readers are all quiet, as
/// they are among ten or more quiet readers, the attempt ends with
/// "information unavailable" on the tenth draw from the attempt counter,
/// after nine connects and nine exchanges.
pub proof fn lemma_quiet_readers_exhaust_budget(world: CardWorld)
    requires
        world.context.is_ok(),
        world.readers.is_ok(),
        spec_quiet_prefix(world.spec_slots(), (MAX_ATTEMPTS - 1) as nat),
    ensures
        spec_authenticate(world).reason == StopReason::BudgetExhausted,
        spec_authenticate(world).decision() == AuthDecision::InfoUnavailable,
        spec_authenticate(world).decision() != AuthDecision::Success,
        spec_authenticate(world).tally.attempts == MAX_ATTEMPTS,
        spec_authenticate(world).tally.connects == MAX_ATTEMPTS - 1,
        spec_authenticate(world).tally.transmits == MAX_ATTEMPTS - 1,
{
    lemma_quiet_readers_are_passed(world.spec_slots(), (MAX_ATTEMPTS - 1) as nat);
}

/// Where fewer than nine readers are attached and all are quiet, the attempt
/// ends with "information unavailable" when none is left.
pub proof fn lemma_quiet_readers_run_out(world: CardWorld)
    requires
        world.context.is_ok(),
        world.readers.is_ok(),
        0 < world.spec_slots().len() < MAX_ATTEMPTS - 1,
        spec_quiet_prefix(world.spec_slots(), world.spec_slots().len()),
    ensures
        spec_authenticate(world).reason == StopReason::NoMoreReaders,
        spec_authenticate(world).decision() == AuthDecision::InfoUnavailable,
        spec_authenticate(world).tally.attempts == world.spec_slots().len() + 1,
        spec_authenticate(world).tally.connects == world.spec_slots().len(),
        spec_authenticate(world).tally.transmits == world.spec_slots().len(),
{
    lemma_quiet_readers_are_passed(world.spec_slots(), world.spec_slots().len());
}

/// No attempt draws on the attempt counter more often than the bound, nor
/// connects or exchanges as often as that.
pub proof fn lemma_attempts_bounded(slots: Seq<ReaderSlot>, i: nat, remaining: nat, t: Tally)
    requires
        1 <= remaining,
    ensures
        spec_attempt(slots, i, remaining, t).tally.attempts <= t.attempts + remaining,
        spec_attempt(slots, i, remaining, t).tally.connects < t.connects + remaining,
        spec_attempt(slots, i, remaining, t).tally.transmits < t.transmits + remaining,
        spec_attempt(slots, i, remaining, t).tally.listings == t.listings,
    decreases remaining,
{
    if remaining > 1 && i < slots.len() {
        let left = (remaining - 1) as nat;
        let drawn = Tally {
            attempts: t.attempts + 1,
            listings: t.listings,
            connects: t.connects,
            transmits: t.transmits,
        };
        let connected = Tally {
            attempts: drawn.attempts,
            listings: drawn.listings,
            connects: drawn.connects + 1,
            transmits: drawn.transmits,
        };
        let sent = Tally {
            attempts: connected.attempts,
            listings: connected.listings,
            connects: connected.connects,
            transmits: connected.transmits + 1,
        };
        assert(spec_attempt(slots, i, remaining, t) == spec_connect(slots, i, left, drawn));
        if slots[i as int].connect.is_ok() {
            assert(spec_connect(slots, i, left, drawn) == spec_exchange(slots, i, left, connected));
            if slots[i as int].probe matches Ok(bytes) && bytes@.len() <= RESPONSE_CAPACITY
                && spec_empty_body(bytes@) {
                assert(spec_exchange(slots, i, left, connected) == spec_attempt(
                    slots,
                    i + 1,
                    left,
                    sent,
                ));
                lemma_attempts_bounded(slots, i + 1, left, sent);
            }
        }
    }
}

/// The retry bound of every attempt: at most ten draws from the attempt
/// counter, at most nine connects and nine exchanges, at most one listing.
pub proof fn lemma_retry_bound(world: CardWorld)
    ensures
        spec_authenticate(world).tally.attempts <= MAX_ATTEMPTS,
        spec_authenticate(world).tally.connects < MAX_ATTEMPTS,
        spec_authenticate(world).tally.transmits < MAX_ATTEMPTS,
        spec_authenticate(world).tally.listings <= 1,
        spec_authenticate(world).tally.transmits <= spec_authenticate(world).tally.connects,
{
    let listed = Tally { attempts: 0, listings: 1, connects: 0, transmits: 0 };
    if world.context.is_ok() && world.readers.is_ok() && world.spec_slots().len() > 0 {
        lemma_attempts_bounded(world.spec_slots(), 0, MAX_ATTEMPTS as nat, listed);
        lemma_exchanges_follow_connects(world.spec_slots(), 0, MAX_ATTEMPTS as nat, listed);
    }
}

/// No card is sent the probe without having been connected to.
pub proof fn lemma_exchanges_follow_connects(
    slots: Seq<ReaderSlot>,
    i: nat,
    remaining: nat,
    t: Tally,
)
    requires
        t.transmits <= t.connects,
    ensures
        spec_attempt(slots, i, remaining, t).tally.transmits <= spec_attempt(
            slots,
            i,
            remaining,
            t,
        ).tally.connects,
    decreases remaining,
{
    if remaining > 1 && i < slots.len() {
        let left = (remaining - 1) as nat;
        let drawn = Tally {
            attempts: t.attempts + 1,
            listings: t.listings,
            connects: t.connects,
            transmits: t.transmits,
        };
        let connected = Tally {
            attempts: drawn.attempts,
            listings: drawn.listings,
            connects: drawn.connects + 1,
            transmits: drawn.transmits,
        };
        let sent = Tally {
            attempts: connected.attempts,
            listings: connected.listings,
            connects: connected.connects,
            transmits: connected.transmits + 1,
        };
        assert(spec_attempt(slots, i, remaining, t) == spec_connect(slots, i, left, drawn));
        if slots[i as int].connect.is_ok() {
            assert(spec_connect(slots, i, left, drawn) == spec_exchange(slots, i, left, connected));
            if slots[i as int].probe matches Ok(bytes) && bytes@.len() <= RESPONSE_CAPACITY
                && spec_empty_body(bytes@) {
                assert(spec_exchange(slots, i, left, connected) == spec_attempt(
                    slots,
                    i + 1,
                    left,
                    sent,
                ));
                lemma_exchanges_follow_connects(slots, i + 1, left, sent);
            }
        }
    }
}

} // verus!

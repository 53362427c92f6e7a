//! The exchange with a token as a state machine.
//!
//! A token that waits for the user's touch answers "conditions not
//! satisfied". The command is then sent again after a short fixed delay,
//! until the token answers otherwise or the time budget is spent. The caller
//! owns the device and the clock: it sends the command, reads the answer,
//! and reports what happened, with the milliseconds elapsed since the first
//! send, as an `Event`. `step` decides what the exchange has come to and what
//! to do next.

use vstd::prelude::*;
use crate::apdu::{decode, payload, status_word, SW_CONDITIONS_NOT_SATISFIED, SW_NO_ERROR};
use crate::error::Error;
use crate::hid::CMD_MSG;

verus! {

/// Milliseconds to wait before the command is sent again.
pub const RETRY_DELAY_MS: u64 = 100;

/// What the caller observed after sending the command.
#[derive(Debug)]
pub enum Event {
    /// The token answered with this response frame.
    Reply { response: Vec<u8>, elapsed_ms: u64 },
    /// No complete answer arrived.
    Silence { elapsed_ms: u64 },
    /// What arrived was not an answer to the command.
    Garbled,
    /// Writing to or reading from the device failed.
    DeviceLost,
}

/// Where an exchange stands.
#[derive(Debug)]
pub enum ExchangeState {
    /// No final answer yet.
    Waiting,
    /// The token answered with success and this payload.
    Success(Vec<u8>),
    /// The time budget was spent while the token waited for the user.
    TimedOut,
    /// The exchange failed.
    Failed(Error),
}

/// What the caller does next.
#[derive(Clone, Copy, Debug, PartialEq, Eq, Structural)]
pub enum Action {
    /// Wait this long, send the command and read the answer.
    Send { delay_ms: u64 },
    /// The exchange is over: close the device.
    Stop,
}

/// An `Event` with its response as a plain byte string.
pub enum EventData {
    Reply { response: Seq<u8>, elapsed_ms: u64 },
    Silence { elapsed_ms: u64 },
    Garbled,
    DeviceLost,
}

/// An `ExchangeState` with its payload as a plain byte string.
pub enum StateData {
    Waiting,
    Success(Seq<u8>),
    TimedOut,
    Failed(Error),
}

impl View for Event {
    type V = EventData;

    open spec fn view(&self) -> EventData {
        match *self {
            Event::Reply { response, elapsed_ms } => EventData::Reply {
                response: response@,
                elapsed_ms,
            },
            Event::Silence { elapsed_ms } => EventData::Silence { elapsed_ms },
            Event::Garbled => EventData::Garbled,
            Event::DeviceLost => EventData::DeviceLost,
        }
    }
}

impl View for ExchangeState {
    type V = StateData;

    open spec fn view(&self) -> StateData {
        match *self {
            ExchangeState::Waiting => StateData::Waiting,
            ExchangeState::Success(payload) => StateData::Success(payload@),
            ExchangeState::TimedOut => StateData::TimedOut,
            ExchangeState::Failed(error) => StateData::Failed(error),
        }
    }
}

/// Where a waiting exchange goes when the time elapsed is held against the budget.
pub open spec fn after_waiting(elapsed_ms: u64, timeout_ms: u64) -> StateData {
    if elapsed_ms > timeout_ms {
        StateData::TimedOut
    } else {
        StateData::Waiting
    }
}

/// The state that follows `state` on `event`.
///
/// Only a waiting exchange moves. A reply too short for a status word, like
/// anything that was no answer to the command, is malformed; success ends the exchange with the payload; "conditions not
/// satisfied", like silence, keeps it waiting until the time elapsed exceeds
/// the budget; any other status word is a protocol error.
pub open spec fn next_state(state: StateData, event: EventData, timeout_ms: u64) -> StateData {
    match state {
        StateData::Waiting => match event {
            EventData::Reply { response, elapsed_ms } => {
                if response.len() < 2 {
                    StateData::Failed(Error::MalformedResponse)
                } else if status_word(response) == SW_NO_ERROR {
                    StateData::Success(payload(response))
                } else if status_word(response) == SW_CONDITIONS_NOT_SATISFIED {
                    after_waiting(elapsed_ms, timeout_ms)
                } else {
                    StateData::Failed(Error::ProtocolError(status_word(response)))
                }
            },
            EventData::Silence { elapsed_ms } => after_waiting(elapsed_ms, timeout_ms),
            EventData::Garbled => StateData::Failed(Error::MalformedResponse),
            EventData::DeviceLost => StateData::Failed(Error::NoDevice),
        },
        _ => state,
    }
}

/// What to do in `state`: send again while waiting, stop otherwise.
pub open spec fn action_in(state: StateData) -> Action {
    if state is Waiting {
        Action::Send { delay_ms: RETRY_DELAY_MS }
    } else {
        Action::Stop
    }
}

/// The state of an exchange that began waiting and has seen `events` in order.
pub open spec fn state_after(events: Seq<EventData>, timeout_ms: u64) -> StateData
    decreases events.len(),
{
    if events.len() == 0 {
        StateData::Waiting
    } else {
        next_state(state_after(events.drop_last(), timeout_ms), events.last(), timeout_ms)
    }
}

/// The event is an answer of "conditions not satisfied".
pub open spec fn is_not_satisfied(event: EventData) -> bool {
    event matches EventData::Reply { response, .. } && response.len() >= 2 && status_word(response)
        == SW_CONDITIONS_NOT_SATISFIED
}

/// The milliseconds that the event reports, zero where it reports none.
pub open spec fn elapsed_of(event: EventData) -> u64 {
    match event {
        EventData::Reply { elapsed_ms, .. } => elapsed_ms,
        EventData::Silence { elapsed_ms } => elapsed_ms,
        EventData::Garbled => 0,
        EventData::DeviceLost => 0,
    }
}

/// The event that a message read from the device stands for: a reply where
/// it came under the command that carries APDU frames, garbled otherwise.
pub fn reply(command: u8, message: Vec<u8>, elapsed_ms: u64) -> (event: Event)
    ensures
        command == CMD_MSG ==> event@ == (EventData::Reply { response: message@, elapsed_ms }),
        command != CMD_MSG ==> event@ == EventData::Garbled,
{
    if command == CMD_MSG {
        Event::Reply { response: message, elapsed_ms }
    } else {
        Event::Garbled
    }
}

/// Begins an exchange: it waits, and the command is to be sent at once.
pub fn start() -> (r: (ExchangeState, Action))
    ensures
        r.0@ is Waiting,
        r.1 == (Action::Send { delay_ms: 0 }),
{
    (ExchangeState::Waiting, Action::Send { delay_ms: 0 })
}

/// Moves an exchange on by one event and says what to do next.
pub fn step(state: ExchangeState, event: Event, timeout_ms: u64) -> (r: (ExchangeState, Action))
    ensures
        r.0@ == next_state(state@, event@, timeout_ms),
        r.1 == action_in(r.0@),
{
    let next: ExchangeState = match state {
        ExchangeState::Waiting => match event {
            Event::Reply { response, elapsed_ms } => match decode(response.as_slice()) {
                Err(error) => ExchangeState::Failed(error),
                Ok(decoded) => {
                    if decoded.status == SW_NO_ERROR {
                        ExchangeState::Success(decoded.payload)
                    } else if decoded.status == SW_CONDITIONS_NOT_SATISFIED {
                        waiting_or_timed_out(elapsed_ms, timeout_ms)
                    } else {
                        ExchangeState::Failed(Error::ProtocolError(decoded.status))
                    }
                },
            },
            Event::Silence { elapsed_ms } => waiting_or_timed_out(elapsed_ms, timeout_ms),
            Event::Garbled => ExchangeState::Failed(Error::MalformedResponse),
            Event::DeviceLost => ExchangeState::Failed(Error::NoDevice),
        },
        other => other,
    };
    let action: Action = match &next {
        ExchangeState::Waiting => Action::Send { delay_ms: RETRY_DELAY_MS },
        _ => Action::Stop,
    };
    (next, action)
}

/// Holds the time elapsed against the budget: timed out once it exceeds the
/// budget, waiting until then.
pub fn waiting_or_timed_out(elapsed_ms: u64, timeout_ms: u64) -> (state: ExchangeState)
    ensures
        state@ == after_waiting(elapsed_ms, timeout_ms),
{
    if elapsed_ms > timeout_ms {
        ExchangeState::TimedOut
    } else {
        ExchangeState::Waiting
    }
}

impl ExchangeState {
    /// The result of the exchange: `None` while it waits, else the payload or the failure.
    pub fn outcome(self) -> (r: Option<Result<Vec<u8>, Error>>)
        ensures
            match self@ {
                StateData::Waiting => r is None,
                StateData::Success(payload) => r is Some && r->Some_0 is Ok
                    && r->Some_0->Ok_0@ == payload,
                StateData::TimedOut => r == Some(Err::<Vec<u8>, Error>(Error::TimedOut)),
                StateData::Failed(error) => r == Some(Err::<Vec<u8>, Error>(error)),
            },
    {
        match self {
            ExchangeState::Waiting => None,
            ExchangeState::Success(payload) => Some(Ok(payload)),
            ExchangeState::TimedOut => Some(Err(Error::TimedOut)),
            ExchangeState::Failed(error) => Some(Err(error)),
        }
    }
}

/// A token that never stops asking for the user times the exchange out once
/// the time elapsed exceeds the budget, and not before.
///
/// If every event is an answer of "conditions not satisfied", the exchange
/// has timed out exactly if one of the answers came later than the budget
/// allows, and otherwise it still waits: it never ends in any other way.
pub proof fn lemma_times_out_after_budget_only(events: Seq<EventData>, timeout_ms: u64)
    requires
        forall|i: int| 0 <= i < events.len() ==> is_not_satisfied(#[trigger] events[i]),
    ensures
        state_after(events, timeout_ms) is TimedOut <==> exists|i: int|
            0 <= i < events.len() && elapsed_of(#[trigger] events[i]) > timeout_ms,
        state_after(events, timeout_ms) is Waiting <==> forall|i: int|
            0 <= i < events.len() ==> elapsed_of(#[trigger] events[i]) <= timeout_ms,
        state_after(events, timeout_ms) is TimedOut || state_after(events, timeout_ms) is Waiting,
    decreases events.len(),
{
    if events.len() > 0 {
        let earlier = events.drop_last();
        assert forall|i: int| 0 <= i < earlier.len() implies is_not_satisfied(
            #[trigger] earlier[i],
        ) by {
            assert(earlier[i] == events[i]);
        }
        lemma_times_out_after_budget_only(earlier, timeout_ms);
        let last = events.last();
        assert(is_not_satisfied(events[events.len() - 1]));
        if state_after(earlier, timeout_ms) is TimedOut {
            let i = choose|i: int|
                0 <= i < earlier.len() && elapsed_of(#[trigger] earlier[i]) > timeout_ms;
            assert(events[i] == earlier[i]);
        } else {
            assert forall|i: int| 0 <= i < events.len() - 1 implies elapsed_of(
                #[trigger] events[i],
            ) <= timeout_ms by {
                assert(events[i] == earlier[i]);
            }
            if elapsed_of(last) > timeout_ms {
                assert(elapsed_of(events[events.len() - 1]) > timeout_ms);
            }
        }
    }
}

} // verus!

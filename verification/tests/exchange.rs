use u2f_authenticator::error::Error;
use u2f_authenticator::exchange::{
    reply, start, step, waiting_or_timed_out, Action, Event, ExchangeState, RETRY_DELAY_MS,
};
use u2f_authenticator::hid::{CMD_INIT, CMD_MSG};

fn not_satisfied(elapsed_ms: u64) -> Event {
    Event::Reply { response: vec![0x69, 0x85], elapsed_ms }
}

#[test]
fn start_waits_and_sends_at_once() {
    let (state, action) = start();
    assert!(matches!(state, ExchangeState::Waiting));
    assert_eq!(action, Action::Send { delay_ms: 0 });
}

#[test]
fn success_ends_the_exchange_with_the_payload() {
    let (state, _) = start();
    let event = Event::Reply { response: vec![0x05, 0x06, 0x90, 0x00], elapsed_ms: 10 };
    let (state, action) = step(state, event, 5000);
    assert_eq!(action, Action::Stop);
    assert_eq!(state.outcome(), Some(Ok(vec![0x05, 0x06])));
}

#[test]
fn success_counts_even_after_the_budget() {
    let event = Event::Reply { response: vec![0x90, 0x00], elapsed_ms: 9000 };
    let (state, action) = step(ExchangeState::Waiting, event, 5000);
    assert_eq!(action, Action::Stop);
    assert_eq!(state.outcome(), Some(Ok(vec![])));
}

#[test]
fn waiting_token_is_asked_again_after_the_fixed_delay() {
    let (state, action) = step(ExchangeState::Waiting, not_satisfied(100), 5000);
    assert!(matches!(state, ExchangeState::Waiting));
    assert_eq!(action, Action::Send { delay_ms: RETRY_DELAY_MS });
    assert_eq!(state.outcome(), None);
}

#[test]
fn continuous_not_satisfied_times_out_after_the_budget_and_not_before() {
    let timeout: u64 = 5000;
    let (mut state, _) = start();
    let mut elapsed: u64 = 0;
    while elapsed <= timeout {
        let (next, action) = step(state, not_satisfied(elapsed), timeout);
        assert!(matches!(next, ExchangeState::Waiting), "timed out at {} ms", elapsed);
        assert_eq!(action, Action::Send { delay_ms: RETRY_DELAY_MS });
        state = next;
        elapsed += RETRY_DELAY_MS;
    }
    assert_eq!(elapsed, 5100);
    let (last, action) = step(state, not_satisfied(elapsed), timeout);
    assert_eq!(action, Action::Stop);
    assert_eq!(last.outcome(), Some(Err(Error::TimedOut)));
}

#[test]
fn the_budget_itself_is_not_yet_a_timeout() {
    assert!(matches!(waiting_or_timed_out(5000, 5000), ExchangeState::Waiting));
    assert!(matches!(waiting_or_timed_out(5001, 5000), ExchangeState::TimedOut));
    assert!(matches!(waiting_or_timed_out(0, 0), ExchangeState::Waiting));
    assert!(matches!(waiting_or_timed_out(1, 0), ExchangeState::TimedOut));
}

#[test]
fn silence_is_held_against_the_budget() {
    let (state, action) = step(ExchangeState::Waiting, Event::Silence { elapsed_ms: 200 }, 300);
    assert!(matches!(state, ExchangeState::Waiting));
    assert_eq!(action, Action::Send { delay_ms: RETRY_DELAY_MS });
    let (state, action) = step(state, Event::Silence { elapsed_ms: 301 }, 300);
    assert_eq!(action, Action::Stop);
    assert_eq!(state.outcome(), Some(Err(Error::TimedOut)));
}

#[test]
fn other_status_words_are_protocol_errors() {
    let event = Event::Reply { response: vec![0xAA, 0x6A, 0x80], elapsed_ms: 1 };
    let (state, action) = step(ExchangeState::Waiting, event, 5000);
    assert_eq!(action, Action::Stop);
    assert_eq!(state.outcome(), Some(Err(Error::ProtocolError(0x6A80))));
}

#[test]
fn a_reply_without_status_word_is_malformed() {
    for response in [vec![], vec![0x90]] {
        let event = Event::Reply { response, elapsed_ms: 1 };
        let (state, action) = step(ExchangeState::Waiting, event, 5000);
        assert_eq!(action, Action::Stop);
        assert_eq!(state.outcome(), Some(Err(Error::MalformedResponse)));
    }
}

#[test]
fn garbled_and_lost_end_the_exchange() {
    let (state, action) = step(ExchangeState::Waiting, Event::Garbled, 5000);
    assert_eq!(action, Action::Stop);
    assert_eq!(state.outcome(), Some(Err(Error::MalformedResponse)));
    let (state, action) = step(ExchangeState::Waiting, Event::DeviceLost, 5000);
    assert_eq!(action, Action::Stop);
    assert_eq!(state.outcome(), Some(Err(Error::NoDevice)));
}

#[test]
fn a_finished_exchange_does_not_move() {
    let success = Event::Reply { response: vec![0x90, 0x00], elapsed_ms: 1 };
    let (state, action) = step(ExchangeState::TimedOut, success, 5000);
    assert_eq!(action, Action::Stop);
    assert_eq!(state.outcome(), Some(Err(Error::TimedOut)));
    let (state, _) = step(ExchangeState::Success(vec![0x01]), Event::DeviceLost, 5000);
    assert_eq!(state.outcome(), Some(Ok(vec![0x01])));
    let (state, _) = step(ExchangeState::Failed(Error::NoDevice), not_satisfied(9999), 5000);
    assert_eq!(state.outcome(), Some(Err(Error::NoDevice)));
}

#[test]
fn reply_is_for_messages_under_the_apdu_command() {
    match reply(CMD_MSG, vec![0x90, 0x00], 42) {
        Event::Reply { response, elapsed_ms } => {
            assert_eq!(response, vec![0x90, 0x00]);
            assert_eq!(elapsed_ms, 42);
        }
        other => panic!("unexpected event {:?}", other),
    }
    assert!(matches!(reply(CMD_INIT, vec![0x90, 0x00], 42), Event::Garbled));
    assert!(matches!(reply(0xBF, vec![0x06], 42), Event::Garbled));
}

use fsm_regex::turnstile::{Event, State, next_state};

#[test]
fn coin_unlocks() {
    assert_eq!(next_state(State::Locked, Event::Coin), State::Unlocked);
    assert_eq!(next_state(State::Unlocked, Event::Coin), State::Unlocked);
}

#[test]
fn push_locks() {
    assert_eq!(next_state(State::Unlocked, Event::Push), State::Locked);
    assert_eq!(next_state(State::Locked, Event::Push), State::Locked);
}

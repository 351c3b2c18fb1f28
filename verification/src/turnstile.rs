//! A toy table-driven turnstile state machine: a stylistic companion to the
//! regular-expression table.  A coin always unlocks the turnstile; a push
//! always leaves it locked again.

use vstd::prelude::*;

verus! {

/// The two states of the turnstile.
#[derive(Clone, Copy, PartialEq, Eq, Debug)]
pub enum State {
    Locked,
    Unlocked,
}

/// The two events the turnstile reacts to.
#[derive(Clone, Copy, PartialEq, Eq, Debug)]
pub enum Event {
    Push,
    Coin,
}

/// The turnstile's transition table: the next state for every current state
/// and event.
pub open spec fn spec_next_state(state: State, event: Event) -> State {
    match (state, event) {
        (State::Locked, Event::Push) => State::Locked,
        (State::Locked, Event::Coin) => State::Unlocked,
        (State::Unlocked, Event::Push) => State::Locked,
        (State::Unlocked, Event::Coin) => State::Unlocked,
    }
}

/// Step the turnstile: look the `(state, event)` pair up in the table.
pub fn next_state(state: State, event: Event) -> (result: State)
    ensures
        result == spec_next_state(state, event),
{
    match (state, event) {
        (State::Locked, Event::Push) => State::Locked,
        (State::Locked, Event::Coin) => State::Unlocked,
        (State::Unlocked, Event::Push) => State::Locked,
        (State::Unlocked, Event::Coin) => State::Unlocked,
    }
}

} // verus!

use vstd::prelude::*;

use crate::riddles::{ChatState, Riddles};
use crate::state_machine::{contains_state, step, StateMachine, Transition};

verus! {

/// Where a player's chat stands.
#[derive(Clone, Debug, PartialEq, Eq)]
pub enum DialogueState {
    /// No riddle is running.
    Idle,
    /// The player asked to start a riddle; the next message is its code.
    AwaitingCode,
    /// The player is playing a riddle.
    Playing(ChatState),
}

/// The answer to a request to stop the current riddle.
#[derive(Clone, Copy, Debug, PartialEq, Eq)]
pub enum StopReply {
    NoRiddleRunning,
    RiddleStopped,
}

/// Stopping ends a running riddle and leaves any other state as it is.
pub fn stop_riddle(state: DialogueState) -> (r: (DialogueState, StopReply))
    ensures
        state is Playing ==> r.0 is Idle && r.1 is RiddleStopped,
        !(state is Playing) ==> r.0 == state && r.1 is NoRiddleRunning,
{
    match state {
        DialogueState::Playing(_) => (DialogueState::Idle, StopReply::RiddleStopped),
        other => (other, StopReply::NoRiddleRunning),
    }
}

/// The chat state of a player who starts the riddle published under `code`:
/// its initial state, or nothing when no riddle has that code.
pub fn start_riddle(riddles: &Riddles, code: &str) -> (r: Option<ChatState>)
    ensures
        r is Some <==> riddles.has_code(code@),
        r matches Some(c) ==> c.riddle@ == code@ && c.state@ == riddles.riddle_for(
            code@,
        ).state_machine@.initial_state,
{
    match riddles.get(code) {
        Some(riddle) => Some(
            ChatState { riddle: code.to_owned(), state: riddle.state_machine.initial_state() },
        ),
        None => None,
    }
}

/// What the player's `input` does: the transition of the riddle's machine
/// from the chat's state, or nothing when the riddle was withdrawn or has no
/// such state.
pub fn riddle_input(riddles: &Riddles, chat: &ChatState, input: &str) -> (r: Option<Transition>)
    ensures
        r is Some <==> riddles.has_code(chat.riddle@) && contains_state(
            riddles.riddle_for(chat.riddle@).state_machine@,
            chat.state@,
        ),
        r matches Some(t) ==> t@ == step(
            riddles.riddle_for(chat.riddle@).state_machine@,
            chat.state@,
            input@,
        ),
{
    match riddles.get(chat.riddle.as_str()) {
        Some(riddle) => {
            if riddle.state_machine.has_state(chat.state.as_str()) {
                Some(riddle.state_machine.apply(chat.state.as_str(), input))
            } else {
                None
            }
        },
        None => None,
    }
}

/// Where the chat stands once a transition of its riddle has reached
/// `new_state`: the riddle is solved, and no longer running, when that state
/// is accepting; otherwise the chat plays on from it.
pub fn settle_riddle(chat: ChatState, machine: &StateMachine, new_state: String) -> (r: DialogueState)
    ensures
        machine@.accepting_states.contains(new_state@) ==> r is Idle,
        !machine@.accepting_states.contains(new_state@) ==> (r matches DialogueState::Playing(c)
            && c.riddle == chat.riddle && c.state == new_state),
{
    if machine.is_accepting(new_state.as_str()) {
        DialogueState::Idle
    } else {
        DialogueState::Playing(ChatState { riddle: chat.riddle, state: new_state })
    }
}

} // verus!
